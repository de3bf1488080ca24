//! The lexicographic order of strings, by Unicode scalar value, which is the order that
//! `String`'s `Ord` gives (UTF-8 keeps the order of code points).
use vstd::prelude::*;

verus! {

/// `a` comes before `b` when both agree on positions `..i`: compared from position `i` on.
pub open spec fn lex_lt_from(a: Seq<char>, b: Seq<char>, i: int) -> bool
    decreases a.len() - i,
{
    if i < 0 || i >= a.len() {
        0 <= i < b.len()
    } else if i >= b.len() {
        false
    } else if (a[i] as int) < (b[i] as int) {
        true
    } else if (a[i] as int) > (b[i] as int) {
        false
    } else {
        lex_lt_from(a, b, i + 1)
    }
}

/// `a` comes strictly before `b` in lexicographic order.
pub open spec fn lex_lt(a: Seq<char>, b: Seq<char>) -> bool {
    lex_lt_from(a, b, 0)
}

pub proof fn lemma_lex_transitive_from(a: Seq<char>, b: Seq<char>, c: Seq<char>, i: int)
    requires
        0 <= i,
        lex_lt_from(a, b, i),
        lex_lt_from(b, c, i),
    ensures
        lex_lt_from(a, c, i),
    decreases a.len() - i,
{
    if i < a.len() && i < b.len() && i < c.len() && a[i] == b[i] && b[i] == c[i] {
        lemma_lex_transitive_from(a, b, c, i + 1);
    }
}

pub proof fn lemma_lex_transitive(a: Seq<char>, b: Seq<char>, c: Seq<char>)
    requires
        lex_lt(a, b),
        lex_lt(b, c),
    ensures
        lex_lt(a, c),
{
    lemma_lex_transitive_from(a, b, c, 0);
}

pub proof fn lemma_lex_irreflexive_from(a: Seq<char>, i: int)
    requires
        0 <= i,
    ensures
        !lex_lt_from(a, a, i),
    decreases a.len() - i,
{
    if i < a.len() {
        lemma_lex_irreflexive_from(a, i + 1);
    }
}

pub proof fn lemma_lex_total_from(a: Seq<char>, b: Seq<char>, i: int)
    requires
        0 <= i <= a.len(),
        i <= b.len(),
        !lex_lt_from(a, b, i),
        !lex_lt_from(b, a, i),
    ensures
        a.len() == b.len(),
        forall|k: int| i <= k < a.len() ==> a[k] == b[k],
    decreases a.len() - i,
{
    if i < a.len() && i < b.len() {
        assert((a[i] as int) == (b[i] as int));
        assert(a[i] == b[i]);
        lemma_lex_total_from(a, b, i + 1);
    }
}

/// Two different strings are ordered one way or the other.
pub proof fn lemma_lex_total(a: Seq<char>, b: Seq<char>)
    requires
        a != b,
    ensures
        lex_lt(a, b) || lex_lt(b, a),
{
    if !lex_lt(a, b) && !lex_lt(b, a) {
        lemma_lex_total_from(a, b, 0);
        assert(a =~= b);
    }
}

/// `a` is a proper prefix of `b`.
pub open spec fn proper_prefix(a: Seq<char>, b: Seq<char>) -> bool {
    a.len() < b.len() && forall|k: int| 0 <= k < a.len() ==> a[k] == b[k]
}

/// At the first position where `a` and `b` differ, `a` has the smaller character.
pub open spec fn smaller_at_first_difference(a: Seq<char>, b: Seq<char>) -> bool {
    exists|i: int| #![trigger a[i], b[i]]
        0 <= i < a.len() && i < b.len()
        && (forall|k: int| 0 <= k < i ==> a[k] == b[k])
        && (a[i] as int) < (b[i] as int)
}

proof fn lemma_lex_from_is_string_order(a: Seq<char>, b: Seq<char>, i: int)
    requires
        0 <= i <= a.len(),
        i <= b.len(),
        forall|k: int| 0 <= k < i ==> a[k] == b[k],
    ensures
        lex_lt_from(a, b, i) <==> (proper_prefix(a, b) || smaller_at_first_difference(a, b)),
    decreases a.len() - i,
{
    if i >= a.len() || i >= b.len() {
        if smaller_at_first_difference(a, b) {
            let j = choose|j: int| #![trigger a[j], b[j]]
                0 <= j < a.len() && j < b.len()
                && (forall|k: int| 0 <= k < j ==> a[k] == b[k])
                && (a[j] as int) < (b[j] as int);
            assert(a[j] == b[j]);
        }
        if i >= b.len() && i < a.len() {
            assert(!proper_prefix(a, b));
        }
    } else if (a[i] as int) < (b[i] as int) {
        assert(smaller_at_first_difference(a, b));
    } else if (a[i] as int) > (b[i] as int) {
        assert(!proper_prefix(a, b)) by {
            if proper_prefix(a, b) {
                assert(a[i] == b[i]);
            }
        }
        if smaller_at_first_difference(a, b) {
            let j = choose|j: int| #![trigger a[j], b[j]]
                0 <= j < a.len() && j < b.len()
                && (forall|k: int| 0 <= k < j ==> a[k] == b[k])
                && (a[j] as int) < (b[j] as int);
            if j < i {
                assert(a[j] == b[j]);
            } else if j > i {
                assert(a[i] == b[i]);
            }
        }
    } else {
        assert(a[i] == b[i]);
        lemma_lex_from_is_string_order(a, b, i + 1);
    }
}

/// The order of [`lex_lt`] is the order of `String`: `a` comes before `b` exactly when
/// `a` is a proper prefix of `b`, or at the first position where they differ `a` has the
/// smaller character. Lengths decide only through the prefix case.
pub proof fn law_lex_is_string_order(a: Seq<char>, b: Seq<char>)
    ensures
        lex_lt(a, b) <==> (proper_prefix(a, b) || smaller_at_first_difference(a, b)),
{
    lemma_lex_from_is_string_order(a, b, 0);
}

/// Whether `a` comes strictly before `b`.
pub fn str_lt(a: &str, b: &str) -> (r: bool)
    ensures
        r == lex_lt(a@, b@),
{
    let la: usize = a.unicode_len();
    let lb: usize = b.unicode_len();
    let mut i: usize = 0;
    while i < la && i < lb
        invariant
            la == a@.len(),
            lb == b@.len(),
            i <= la,
            i <= lb,
            lex_lt(a@, b@) == lex_lt_from(a@, b@, i as int),
        decreases la - i,
    {
        let ca: char = a.get_char(i);
        let cb: char = b.get_char(i);
        if (ca as u32) < (cb as u32) {
            return true;
        }
        if (ca as u32) > (cb as u32) {
            return false;
        }
        i = i + 1;
    }
    i < lb && i >= la
}

} // verus!
