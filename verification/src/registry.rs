//! A registry numbers its entries: ordered by priority, then by identifier, the
//! entries get the ids 0, 1, 2, ... in turn, and identifiers and ids convert both ways.
use vstd::prelude::*;
use std::marker::PhantomData;
use crate::identifier::Identifier;
use crate::order::{lemma_lex_total, lemma_lex_transitive, lex_lt, str_lt};

verus! {

broadcast use vstd::seq_lib::group_to_multiset_ensures;

/// The id of an entry of a registry of `V`s: its position in the registry.
pub struct Id<V> {
    pub key: u32,
    pub _v: PhantomData<V>,
}

impl<V> Clone for Id<V> {
    fn clone(&self) -> (r: Self)
        ensures
            r.key == self.key,
    {
        Id { key: self.key, _v: PhantomData }
    }
}

impl<V> Copy for Id<V> {
}

impl<V> Id<V> {
    pub fn new(key: u32) -> (r: Id<V>)
        ensures
            r.key == key,
    {
        Id { key, _v: PhantomData }
    }

    /// The position that the id stands for.
    pub fn index(&self) -> (r: usize)
        ensures
            r == self.key,
    {
        self.key as usize
    }
}

/// An entry to register: its identifier, its priority and its value. A priority is an
/// integer that sorts as the entry's priority should; lower priorities come first.
pub type RegistryEntry<V> = (Identifier, u32, V);

/// `a` comes before `b` by namespace, then by path.
pub open spec fn identifier_lt(a: (Seq<char>, Seq<char>), b: (Seq<char>, Seq<char>)) -> bool {
    lex_lt(a.0, b.0) || (a.0 == b.0 && lex_lt(a.1, b.1))
}

/// `a` comes before `b` by priority, then by identifier.
pub open spec fn entry_lt<V>(a: RegistryEntry<V>, b: RegistryEntry<V>) -> bool {
    a.1 < b.1 || (a.1 == b.1 && identifier_lt(a.0@, b.0@))
}

/// The entries are in strictly increasing order.
pub open spec fn sorted_entries<V>(s: Seq<RegistryEntry<V>>) -> bool {
    forall|i: int, j: int| 0 <= i < j < s.len() ==> entry_lt(#[trigger] s[i], #[trigger] s[j])
}

/// No two entries have the same identifier.
pub open spec fn distinct_identifiers<V>(s: Seq<RegistryEntry<V>>) -> bool {
    forall|i: int, j: int| 0 <= i < s.len() && 0 <= j < s.len() && i != j ==> (#[trigger] s[i]).0@ != (#[trigger] s[j]).0@
}

/// The position of the entry with identifier `x`, if there is one.
pub open spec fn index_of_identifier<V>(s: Seq<RegistryEntry<V>>, x: (Seq<char>, Seq<char>)) -> Option<int> {
    if exists|i: int| 0 <= i < s.len() && (#[trigger] s[i]).0@ == x {
        Some(choose|i: int| 0 <= i < s.len() && (#[trigger] s[i]).0@ == x)
    } else {
        None
    }
}

proof fn lemma_entry_lt_transitive<V>(a: RegistryEntry<V>, b: RegistryEntry<V>, c: RegistryEntry<V>)
    requires
        entry_lt(a, b),
        entry_lt(b, c),
    ensures
        entry_lt(a, c),
{
    if a.1 == b.1 && b.1 == c.1 {
        let (x, y, z) = (a.0@, b.0@, c.0@);
        if lex_lt(x.0, y.0) && lex_lt(y.0, z.0) {
            lemma_lex_transitive(x.0, y.0, z.0);
        } else if lex_lt(x.0, y.0) {
        } else if lex_lt(y.0, z.0) {
        } else {
            lemma_lex_transitive(x.1, y.1, z.1);
        }
    }
}

proof fn lemma_entry_lt_total<V>(a: RegistryEntry<V>, b: RegistryEntry<V>)
    requires
        a.0@ != b.0@,
    ensures
        entry_lt(a, b) || entry_lt(b, a),
{
    if a.1 == b.1 {
        if a.0@.0 != b.0@.0 {
            lemma_lex_total(a.0@.0, b.0@.0);
        } else {
            assert(a.0@.1 != b.0@.1);
            lemma_lex_total(a.0@.1, b.0@.1);
        }
    }
}

/// Whether `a` comes before `b` by priority, then by identifier.
fn entry_before<V>(a: &RegistryEntry<V>, b: &RegistryEntry<V>) -> (r: bool)
    ensures
        r == entry_lt(*a, *b),
{
    if a.1 != b.1 {
        return a.1 < b.1;
    }
    if str_lt(a.0.namespace.as_str(), b.0.namespace.as_str()) {
        true
    } else if a.0.namespace == b.0.namespace {
        str_lt(a.0.path.as_str(), b.0.path.as_str())
    } else {
        false
    }
}

/// In entries with distinct identifiers, the identifier at position `i` is found at `i`.
pub proof fn lemma_index_of_identifier<V>(s: Seq<RegistryEntry<V>>, i: int)
    requires
        distinct_identifiers(s),
        0 <= i < s.len(),
    ensures
        index_of_identifier(s, s[i].0@) == Some(i),
{
    assert(0 <= i < s.len() && s[i].0@ == s[i].0@);
    let k = choose|k: int| 0 <= k < s.len() && (#[trigger] s[k]).0@ == s[i].0@;
    assert(k == i);
}

/// `func` gave `out` for the source entry `j` with value `source_value` and the entry `k`
/// with value `value`.
pub open spec fn zip_made<V, S, O, E, F: Fn(Id<O>, Id<V>, &V, S) -> Result<O, E>>(
    func: F,
    j: int,
    k: int,
    value: V,
    source_value: S,
    out: Result<O, E>,
) -> bool {
    exists|src_id: Id<O>, self_id: Id<V>| src_id.key == j && self_id.key == k
        && #[trigger] call_ensures(func, (src_id, self_id, &value, source_value), out)
}

/// `func` failed with `e` when zipping entry `j` of `source` into entry `k` of `s`, after
/// it succeeded on every earlier entry of `source` that has an entry in `s`.
pub open spec fn zip_failed<V, S, O, E, F: Fn(Id<O>, Id<V>, &V, S) -> Result<O, E>>(
    func: F,
    s: Seq<RegistryEntry<V>>,
    source: Seq<RegistryEntry<S>>,
    e: E,
) -> bool {
    exists|j: int, k: int|
        0 <= j < source.len() && 0 <= k < s.len() && source[j].0@ == s[k].0@
        && #[trigger] zip_made(func, j, k, s[k].2, source[j].2, Err(e))
        && forall|jj: int, kk: int| 0 <= jj < j && 0 <= kk < s.len() && source[jj].0@ == s[kk].0@
            ==> exists|o: O| #[trigger] zip_made(func, jj, kk, s[kk].2, source[jj].2, Ok(o))
}

/// Entry `k` of the zip: the value made from the entry of `source` with the same
/// identifier as entry `k` of `s`, if `source` has one.
pub open spec fn zip_entry<V, S, O, E, F: Fn(Id<O>, Id<V>, &V, S) -> Result<O, E>>(
    func: F,
    s: Seq<RegistryEntry<V>>,
    source: Seq<RegistryEntry<S>>,
    k: int,
    out: Option<O>,
    done: int,
) -> bool {
    match index_of_identifier(source, s[k].0@) {
        Some(j) => if j < done {
            out matches Some(o) && zip_made(func, j, k, s[k].2, source[j].2, Ok(o))
        } else {
            out is None
        },
        None => out is None,
    }
}

/// `func` succeeded on entry `i` of `s`, given that entry's id and value.
pub open spec fn map_made<V, O, E, F: Fn(Id<O>, V) -> Result<O, E>>(func: F, s: Seq<RegistryEntry<V>>, i: int) -> bool {
    exists|id: Id<O>, o: O| id.key == i && #[trigger] call_ensures(func, (id, s[i].2), Ok(o))
}

/// `func` failed with `e` on an entry of `s`, given that entry's id and value, after it
/// succeeded on every entry before it.
pub open spec fn map_failed<V, O, E, F: Fn(Id<O>, V) -> Result<O, E>>(func: F, s: Seq<RegistryEntry<V>>, e: E) -> bool {
    exists|i: int, id: Id<O>| 0 <= i < s.len() && id.key == i && #[trigger] call_ensures(func, (id, s[i].2), Err(e))
        && forall|j: int| 0 <= j < i ==> #[trigger] map_made(func, s, j)
}

/// In a registry's order, priorities never decrease, and among entries of one priority
/// the namespaces never go back in `String` order.
pub proof fn law_registry_order<V>(s: Seq<RegistryEntry<V>>, i: int, j: int)
    requires
        sorted_entries(s),
        0 <= i < j < s.len(),
    ensures
        s[i].1 <= s[j].1,
        s[i].1 == s[j].1 ==> (lex_lt(s[i].0.namespace@, s[j].0.namespace@) || s[i].0.namespace@ == s[j].0.namespace@),
{
    assert(entry_lt(s[i], s[j]));
}

/// Numbered entries: the entry at position `i` has the id `i`.
pub struct Registry<V> {
    entries: Vec<RegistryEntry<V>>,
}

impl<V> Default for Registry<V> {
    /// The empty registry.
    fn default() -> (r: Self)
        ensures
            r.entries() == Seq::<RegistryEntry<V>>::empty(),
    {
        Registry { entries: Vec::new() }
    }
}

impl<V> Registry<V> {
    /// The entries, in the order of their ids.
    pub closed spec fn entries(&self) -> Seq<RegistryEntry<V>> {
        self.entries@
    }

    #[verifier::type_invariant]
    closed spec fn well_formed(&self) -> bool {
        &&& distinct_identifiers(self.entries@)
        &&& sorted_entries(self.entries@)
        &&& self.entries@.len() <= u32::MAX + 1
    }

    /// Numbers the entries: sorted by priority, then by identifier, they get the ids
    /// 0, 1, 2, ... in turn.
    pub fn new(values: Vec<RegistryEntry<V>>) -> (r: Registry<V>)
        requires
            distinct_identifiers(values@),
            values@.len() <= u32::MAX + 1,
        ensures
            r.entries().to_multiset() == values@.to_multiset(),
            sorted_entries(r.entries()),
            distinct_identifiers(r.entries()),
    {
        let ghost orig = values@;
        let mut input = values;
        let mut out: Vec<RegistryEntry<V>> = Vec::new();
        assert(orig.skip(orig.len() as int) =~= Seq::<RegistryEntry<V>>::empty());
        assert(input@ =~= orig.take(input@.len() as int));
        while input.len() > 0
            invariant
                input@.len() <= orig.len(),
                input@ == orig.take(input@.len() as int),
                out@.to_multiset() == orig.skip(input@.len() as int).to_multiset(),
                sorted_entries(out@),
                distinct_identifiers(out@),
                distinct_identifiers(orig),
            decreases input@.len(),
        {
            let e = input.pop().unwrap();
            let ghost n = input@.len() as int;
            assert(e == orig[n]);
            assert(input@ =~= orig.take(n));
            let mut p: usize = 0;
            while p < out.len() && !entry_before(&e, &out[p])
                invariant
                    p <= out@.len(),
                    forall|i: int| 0 <= i < p ==> !entry_lt(e, #[trigger] out@[i]),
                decreases out@.len() - p,
            {
                p = p + 1;
            }
            let ghost before = out@;
            out.insert(p, e);
            proof {
                assert(orig.skip(n) =~= orig.skip(n + 1).insert(0, e));
                vstd::seq_lib::to_multiset_insert(orig.skip(n + 1), 0, e);
                vstd::seq_lib::to_multiset_insert(before, p as int, e);
                assert forall|i: int| 0 <= i < before.len() implies (#[trigger] before[i]).0@ != e.0@ by {
                    let x = before[i];
                    assert(before.to_multiset().count(x) > 0);
                    assert(orig.skip(n + 1).to_multiset().count(x) > 0);
                    assert(orig.skip(n + 1).contains(x));
                    let j = choose|j: int| 0 <= j < orig.skip(n + 1).len() && #[trigger] orig.skip(n + 1)[j] == x;
                    assert(orig[n + 1 + j] == x);
                }
                assert forall|i: int, j: int| 0 <= i < out@.len() && 0 <= j < out@.len() && i != j
                    implies (#[trigger] out@[i]).0@ != (#[trigger] out@[j]).0@ by {
                    if i != p && j != p {
                        let bi = if i < p { i } else { i - 1 };
                        let bj = if j < p { j } else { j - 1 };
                        assert(out@[i] == before[bi] && out@[j] == before[bj]);
                    } else if i == p {
                        let bj = if j < p { j } else { j - 1 };
                        assert(out@[j] == before[bj]);
                    } else {
                        let bi = if i < p { i } else { i - 1 };
                        assert(out@[i] == before[bi]);
                    }
                }
                assert forall|i: int| 0 <= i < p implies entry_lt(#[trigger] before[i], e) by {
                    lemma_entry_lt_total(before[i], e);
                }
                assert forall|i: int, j: int| 0 <= i < j < out@.len() implies entry_lt(#[trigger] out@[i], #[trigger] out@[j]) by {
                    if j < p {
                        assert(out@[i] == before[i] && out@[j] == before[j]);
                    } else if j == p {
                        assert(out@[i] == before[i]);
                    } else if i == p {
                        assert(out@[j] == before[j - 1]);
                        if j - 1 > p {
                            lemma_entry_lt_transitive(e, before[p as int], before[j - 1]);
                        }
                    } else if i < p {
                        assert(out@[i] == before[i] && out@[j] == before[j - 1]);
                        lemma_entry_lt_transitive(before[i], e, before[p as int]);
                        if j - 1 > p {
                            lemma_entry_lt_transitive(before[i], before[p as int], before[j - 1]);
                        }
                    } else {
                        assert(out@[i] == before[i - 1] && out@[j] == before[j - 1]);
                    }
                }
            }
        }
        assert(orig.skip(0) =~= orig);
        proof {
            assert(out@.len() == orig.len()) by {
                assert(out@.to_multiset().len() == orig.to_multiset().len());
            }
        }
        Registry { entries: out }
    }

    /// How many entries the registry holds.
    pub fn len(&self) -> (r: usize)
        ensures
            r == self.entries().len(),
    {
        self.entries.len()
    }

    /// The id of the entry with the given identifier, if there is one.
    pub fn get_id(&self, identifier: &Identifier) -> (r: Option<Id<V>>)
        ensures
            match r {
                Some(id) => index_of_identifier(self.entries(), identifier@) == Some(id.key as int),
                None => index_of_identifier(self.entries(), identifier@) is None,
            },
    {
        proof {
            use_type_invariant(self);
        }
        let mut i: usize = 0;
        while i < self.entries.len()
            invariant
                i <= self.entries@.len() <= u32::MAX + 1,
                distinct_identifiers(self.entries@),
                forall|j: int| 0 <= j < i ==> (#[trigger] self.entries@[j]).0@ != identifier@,
            decreases self.entries@.len() - i,
        {
            let entry = &self.entries[i];
            if entry.0.namespace == identifier.namespace && entry.0.path == identifier.path {
                proof {
                    let k = choose|k: int| 0 <= k < self.entries@.len() && (#[trigger] self.entries@[k]).0@ == identifier@;
                    assert(k == i);
                }
                return Some(Id::new(i as u32));
            }
            i = i + 1;
        }
        None
    }

    /// The identifier of the entry with the given id.
    pub fn get_identifier(&self, id: Id<V>) -> (r: &Identifier)
        requires
            id.key < self.entries().len(),
        ensures
            *r == self.entries()[id.key as int].0,
    {
        &self.entries[id.index()].0
    }

    /// The value of the entry with the given id.
    pub fn get(&self, id: Id<V>) -> (r: &V)
        requires
            id.key < self.entries().len(),
        ensures
            *r == self.entries()[id.key as int].2,
    {
        &self.entries[id.index()].2
    }

    /// Turns each value into another one: `func` gets the id of the entry and its value.
    /// Identifiers, priorities and ids stay. The first failure of `func` is the result.
    pub fn map<O, E, F: Fn(Id<O>, V) -> Result<O, E>>(self, func: F) -> (r: Result<Registry<O>, E>)
        requires
            forall|i: int, id: Id<O>| 0 <= i < self.entries().len() && id.key == i
                ==> #[trigger] call_requires(func, (id, self.entries()[i].2)),
        ensures
            r matches Ok(reg) ==> {
                &&& reg.entries().len() == self.entries().len()
                &&& forall|i: int| 0 <= i < self.entries().len() ==> {
                    &&& (#[trigger] reg.entries()[i]).0 == self.entries()[i].0
                    &&& reg.entries()[i].1 == self.entries()[i].1
                    &&& exists|id: Id<O>| id.key == i && call_ensures(func, (id, self.entries()[i].2), Ok(reg.entries()[i].2))
                }
            },
            r matches Err(e) ==> map_failed(func, self.entries(), e),
    {
        proof {
            use_type_invariant(&self);
        }
        let ghost orig = self.entries@;
        assert(orig == self.entries());
        let mut rest = self.entries;
        let total: usize = rest.len();
        let mut out: Vec<RegistryEntry<O>> = Vec::new();
        let mut k: usize = 0;
        assert(rest@ =~= orig.skip(0));
        while rest.len() > 0
            invariant
                orig == self.entries(),
                orig.len() == total,
                orig.len() <= u32::MAX + 1,
                distinct_identifiers(orig),
                sorted_entries(orig),
                k + rest@.len() == orig.len(),
                rest@ == orig.skip(k as int),
                out@.len() == k,
                forall|i: int, id: Id<O>| 0 <= i < orig.len() && id.key == i
                    ==> #[trigger] call_requires(func, (id, orig[i].2)),
                forall|i: int| 0 <= i < k ==> {
                    &&& (#[trigger] out@[i]).0 == orig[i].0
                    &&& out@[i].1 == orig[i].1
                    &&& exists|id: Id<O>| id.key == i && call_ensures(func, (id, orig[i].2), Ok(out@[i].2))
                },
            decreases rest@.len(),
        {
            let (identifier, priority, value) = rest.remove(0);
            assert(orig[k as int] == (identifier, priority, value));
            assert(rest@ =~= orig.skip(k + 1));
            let id: Id<O> = Id::new(k as u32);
            let res = func(id, value);
            match res {
                Ok(o) => {
                    out.push((identifier, priority, o));
                },
                Err(e) => {
                    assert(call_ensures(func, (id, self.entries()[k as int].2), Err(e)));
                    assert forall|j: int| 0 <= j < k implies #[trigger] map_made(func, orig, j) by {
                        let jid = choose|jid: Id<O>| jid.key == j && call_ensures(func, (jid, orig[j].2), Ok(out@[j].2));
                        assert(call_ensures(func, (jid, orig[j].2), Ok(out@[j].2)));
                    }
                    assert(map_failed(func, self.entries(), e));
                    return Err(e);
                },
            }
            k = k + 1;
        }
        proof {
            assert forall|i: int, j: int| 0 <= i < j < out@.len() implies entry_lt(#[trigger] out@[i], #[trigger] out@[j]) by {
                assert(entry_lt(orig[i], orig[j]));
            }
            assert forall|i: int, j: int| 0 <= i < out@.len() && 0 <= j < out@.len() && i != j
                implies (#[trigger] out@[i]).0@ != (#[trigger] out@[j]).0@ by {
                assert(orig[i].0@ != orig[j].0@);
            }
        }
        Ok(Registry { entries: out })
    }

    /// Makes a value for each entry of this registry from the entry of `source` with the
    /// same identifier, if there is one: `func` gets the source id, this registry's id,
    /// this registry's value and the source value. The first failure of `func` is the result.
    pub fn zip<S, O, E, F: Fn(Id<O>, Id<V>, &V, S) -> Result<O, E>>(&self, source: Registry<S>, func: F) -> (r: Result<Vec<Option<O>>, E>)
        requires
            forall|j: int, k: int, src_id: Id<O>, self_id: Id<V>|
                0 <= j < source.entries().len() && 0 <= k < self.entries().len()
                && source.entries()[j].0@ == self.entries()[k].0@ && src_id.key == j && self_id.key == k
                ==> #[trigger] call_requires(func, (src_id, self_id, &self.entries()[k].2, source.entries()[j].2)),
        ensures
            r matches Ok(out) ==> {
                &&& out@.len() == self.entries().len()
                &&& forall|k: int| 0 <= k < self.entries().len()
                    ==> zip_entry(func, self.entries(), source.entries(), k, #[trigger] out@[k], source.entries().len() as int)
            },
            r matches Err(e) ==> zip_failed(func, self.entries(), source.entries(), e),
    {
        proof {
            use_type_invariant(self);
            use_type_invariant(&source);
        }
        let ghost s = self.entries@;
        let ghost src = source.entries@;
        assert(s == self.entries());
        assert(src == source.entries());
        let n: usize = self.entries.len();
        let mut output: Vec<Option<O>> = Vec::new();
        let mut k: usize = 0;
        while k < n
            invariant
                n == s.len(),
                s == self.entries(),
                k <= n,
                output@.len() == k,
                forall|i: int| 0 <= i < k ==> (#[trigger] output@[i]) is None,
            decreases n - k,
        {
            output.push(None);
            k = k + 1;
        }
        proof {
            assert forall|i: int| 0 <= i < n implies zip_entry(func, s, src, i, #[trigger] output@[i], 0) by {
                if let Some(jj) = index_of_identifier(src, s[i].0@) {
                    assert(0 <= jj);
                }
            }
        }
        let mut rest = source.entries;
        let total: usize = rest.len();
        let mut j: usize = 0;
        assert(rest@ =~= src.skip(0));
        while rest.len() > 0
            invariant
                n == s.len(),
                s == self.entries(),
                src == source.entries(),
                distinct_identifiers(s),
                distinct_identifiers(src),
                s.len() <= u32::MAX + 1,
                src.len() <= u32::MAX + 1,
                src.len() == total,
                j + rest@.len() == src.len(),
                rest@ == src.skip(j as int),
                output@.len() == n,
                forall|jj: int, kk: int, src_id: Id<O>, self_id: Id<V>|
                    0 <= jj < src.len() && 0 <= kk < s.len()
                    && src[jj].0@ == s[kk].0@ && src_id.key == jj && self_id.key == kk
                    ==> #[trigger] call_requires(func, (src_id, self_id, &s[kk].2, src[jj].2)),
                forall|i: int| 0 <= i < n ==> zip_entry(func, s, src, i, #[trigger] output@[i], j as int),
            decreases rest@.len(),
        {
            let (identifier, _priority, value) = rest.remove(0);
            assert(src[j as int] == (identifier, _priority, value));
            assert(rest@ =~= src.skip(j + 1));
            proof {
                lemma_index_of_identifier(src, j as int);
            }
            let found = self.get_id(&identifier);
            let ghost before = output@;
            match found {
                Some(self_id) => {
                    proof {
                        self.lemma_index_in_range(identifier@);
                    }
                    let k: usize = self_id.index();
                    let src_id: Id<O> = Id::new(j as u32);
                    let res = func(src_id, self_id, &self.entries[k].2, value);
                    match res {
                        Ok(o) => {
                            let ghost og = o;
                            output.set(k, Some(o));
                            proof {
                                assert(s[k as int].0@ == src[j as int].0@);
                                assert(index_of_identifier(src, s[k as int].0@) == Some(j as int));
                                assert(call_ensures(func, (src_id, self_id, &s[k as int].2, src[j as int].2), Ok(og)));
                                assert(src_id.key == j && self_id.key == k);
                                assert(exists|a: Id<O>, b: Id<V>| a.key == j && b.key == k
                                    && #[trigger] call_ensures(func, (a, b, &s[k as int].2, src[j as int].2), Ok(og)));
                                assert(zip_made(func, j as int, k as int, s[k as int].2, src[j as int].2, Ok(og)));
                                assert(zip_entry(func, s, src, k as int, Some(og), j + 1));
                                assert forall|i: int| 0 <= i < n implies zip_entry(func, s, src, i, #[trigger] output@[i], j + 1) by {
                                    assert(zip_entry(func, s, src, i, before[i], j as int));
                                    if i == k {
                                        lemma_index_of_identifier(s, i);
                                    } else if index_of_identifier(src, s[i].0@) == Some(j as int) {
                                        lemma_index_of_identifier(s, i);
                                        lemma_index_of_identifier(s, k as int);
                                    }
                                }
                            }
                        },
                        Err(e) => {
                            assert(call_ensures(func, (src_id, self_id, &s[k as int].2, src[j as int].2), Err(e)));
                            assert(zip_made(func, j as int, k as int, s[k as int].2, src[j as int].2, Err(e)));
                            assert forall|jj: int, kk: int| 0 <= jj < j && 0 <= kk < s.len() && src[jj].0@ == s[kk].0@
                                implies exists|o: O| #[trigger] zip_made(func, jj, kk, s[kk].2, src[jj].2, Ok(o)) by {
                                lemma_index_of_identifier(src, jj);
                                assert(zip_entry(func, s, src, kk, output@[kk], j as int));
                                let o = output@[kk]->0;
                                assert(zip_made(func, jj, kk, s[kk].2, src[jj].2, Ok(o)));
                            }
                            assert(zip_failed(func, self.entries(), source.entries(), e));
                            return Err(e);
                        },
                    }
                },
                None => {
                    proof {
                        assert forall|i: int| 0 <= i < n implies zip_entry(func, s, src, i, #[trigger] output@[i], j + 1) by {
                            assert(zip_entry(func, s, src, i, before[i], j as int));
                            if index_of_identifier(src, s[i].0@) == Some(j as int) {
                                lemma_index_of_identifier(s, i);
                            }
                        }
                    }
                },
            }
            j = j + 1;
        }
        Ok(output)
    }

    /// A position that a lookup gives lies in the registry.
    pub proof fn lemma_index_in_range(&self, x: (Seq<char>, Seq<char>))
        ensures
            index_of_identifier(self.entries(), x) matches Some(j) ==> 0 <= j < self.entries().len(),
    {
    }

    /// Looking up the identifier of an id gives the id back, and the identifier of the
    /// id that a lookup gives is the identifier looked up.
    pub proof fn law_lookup_roundtrip(&self, i: int, x: (Seq<char>, Seq<char>))
        requires
            distinct_identifiers(self.entries()),
            0 <= i < self.entries().len(),
        ensures
            index_of_identifier(self.entries(), self.entries()[i].0@) == Some(i),
            index_of_identifier(self.entries(), x) matches Some(j) ==> self.entries()[j].0@ == x,
    {
        lemma_index_of_identifier(self.entries(), i);
    }
}

} // verus!
