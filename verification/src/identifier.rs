use vstd::prelude::*;

verus! {

/// The namespace of the entries that the game itself defines.
pub open spec fn default_namespace() -> Seq<char> {
    "rustaria"@
}

/// `k` is the position of the first `:` in `s`.
pub open spec fn is_first_colon(s: Seq<char>, k: int) -> bool {
    &&& 0 <= k < s.len()
    &&& s[k] == ':'
    &&& forall|j: int| 0 <= j < k ==> s[j] != ':'
}

/// The namespace and path that a string `namespace:path` names. Without a `:`, the
/// whole string is the path in the default namespace; otherwise the string is split
/// at its first `:`.
pub open spec fn parse_identifier(s: Seq<char>) -> (Seq<char>, Seq<char>) {
    if exists|k: int| is_first_colon(s, k) {
        let k = choose|k: int| is_first_colon(s, k);
        (s.take(k), s.skip(k + 1))
    } else {
        (default_namespace(), s)
    }
}

/// The text form `namespace:path` of an identifier.
pub open spec fn display_identifier(namespace: Seq<char>, path: Seq<char>) -> Seq<char> {
    namespace + seq![':'] + path
}

/// The identifier is a dual-string notifying which mod (namespace) the entry is from. and what it is.
#[derive(Clone, Ord, PartialOrd, Eq, PartialEq, Hash, Debug)]
pub struct Identifier {
    pub namespace: String,
    pub path: String,
}

impl View for Identifier {
    type V = (Seq<char>, Seq<char>);

    open spec fn view(&self) -> (Seq<char>, Seq<char>) {
        (self.namespace@, self.path@)
    }
}

impl Identifier {
    /// An identifier of the game itself.
    pub fn new(path: &'static str) -> (r: Identifier)
        ensures
            r@ == (default_namespace(), path@),
    {
        Identifier { namespace: String::from_str("rustaria"), path: String::from_str(path) }
    }

    /// An identifier in the `test` namespace.
    pub fn test(path: &'static str) -> (r: Identifier)
        ensures
            r@ == ("test"@, path@),
    {
        Identifier { namespace: String::from_str("test"), path: String::from_str(path) }
    }

    /// Reads `namespace:path`; a string without `:` is a path in the default namespace.
    pub fn new_lua(string: String) -> (r: Identifier)
        ensures
            r@ == parse_identifier(string@),
    {
        let s: &str = string.as_str();
        let len: usize = s.unicode_len();
        let mut i: usize = 0;
        while i < len
            invariant
                len == s@.len(),
                s@ == string@,
                i <= len,
                forall|j: int| 0 <= j < i ==> s@[j] != ':',
            decreases len - i,
        {
            if s.get_char(i) == ':' {
                proof {
                    assert(is_first_colon(s@, i as int));
                    let k = choose|k: int| is_first_colon(s@, k);
                    assert(k == i) by {
                        if k < i {
                        } else if k > i {
                            assert(s@[i as int] != ':');
                        }
                    }
                }
                let namespace = String::from_str(s.substring_char(0, i));
                let path = String::from_str(s.substring_char(i + 1, len));
                proof {
                    assert(namespace@ =~= s@.take(i as int));
                    assert(path@ =~= s@.skip(i + 1));
                }
                return Identifier { namespace, path };
            }
            i = i + 1;
        }
        proof {
            assert(!exists|k: int| is_first_colon(string@, k));
        }
        Identifier { namespace: String::from_str("rustaria"), path: string }
    }

    /// The text form `namespace:path`.
    pub fn to_string(&self) -> (r: String)
        ensures
            r@ == display_identifier(self.namespace@, self.path@),
    {
        let mut r = String::from_str(self.namespace.as_str());
        r.append(":");
        r.append(self.path.as_str());
        proof {
            reveal_strlit(":");
            assert(r@ =~= display_identifier(self.namespace@, self.path@));
        }
        r
    }
}

/// Reading the text form of an identifier whose namespace holds no `:` gives the identifier back.
pub proof fn law_parse_display(namespace: Seq<char>, path: Seq<char>)
    requires
        !namespace.contains(':'),
    ensures
        parse_identifier(display_identifier(namespace, path)) == (namespace, path),
{
    let s = display_identifier(namespace, path);
    let n = namespace.len() as int;
    assert(s[n] == ':');
    assert forall|j: int| 0 <= j < n implies s[j] != ':' by {
        assert(s[j] == namespace[j]);
    }
    assert(is_first_colon(s, n));
    let k = choose|k: int| is_first_colon(s, k);
    assert(k == n) by {
        if k < n {
            assert(s[k] == namespace[k]);
        } else if k > n {
            assert(s[n] != ':');
        }
    }
    assert(s.take(n) =~= namespace);
    assert(s.skip(n + 1) =~= path);
}

/// Writing the identifier read from a string gives the string back when it holds a `:`,
/// and the string in the default namespace when it holds none.
pub proof fn law_display_parse(s: Seq<char>)
    ensures
        s.contains(':') ==> display_identifier(parse_identifier(s).0, parse_identifier(s).1) == s,
        !s.contains(':') ==> display_identifier(parse_identifier(s).0, parse_identifier(s).1)
            == display_identifier(default_namespace(), s),
{
    if s.contains(':') {
        let i = choose|i: int| 0 <= i < s.len() && s[i] == ':';
        lemma_first_colon_exists(s, i);
        let k = choose|k: int| is_first_colon(s, k);
        assert(display_identifier(s.take(k), s.skip(k + 1)) =~= s);
    } else {
        assert(!exists|k: int| is_first_colon(s, k));
    }
}

/// A string with a `:` at `i` has a first `:`.
proof fn lemma_first_colon_exists(s: Seq<char>, i: int)
    requires
        0 <= i < s.len(),
        s[i] == ':',
    ensures
        exists|k: int| is_first_colon(s, k),
    decreases i,
{
    if exists|j: int| 0 <= j < i && s[j] == ':' {
        let j = choose|j: int| 0 <= j < i && s[j] == ':';
        lemma_first_colon_exists(s, j);
    } else {
        assert(is_first_colon(s, i));
    }
}

} // verus!
