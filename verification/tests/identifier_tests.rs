use rustaria::identifier::Identifier;

fn ident(namespace: &str, path: &str) -> Identifier {
    Identifier { namespace: namespace.to_string(), path: path.to_string() }
}

#[test]
fn new_uses_default_namespace() {
    assert_eq!(Identifier::new("air"), ident("rustaria", "air"));
}

#[test]
fn test_uses_test_namespace() {
    assert_eq!(Identifier::test("dirt"), ident("test", "dirt"));
}

#[test]
fn new_lua_splits_at_first_colon() {
    assert_eq!(Identifier::new_lua("mymod:stone".to_string()), ident("mymod", "stone"));
    assert_eq!(Identifier::new_lua("a:b:c".to_string()), ident("a", "b:c"));
    assert_eq!(Identifier::new_lua(":x".to_string()), ident("", "x"));
    assert_eq!(Identifier::new_lua("x:".to_string()), ident("x", ""));
    assert_eq!(Identifier::new_lua("ünï:çödé".to_string()), ident("ünï", "çödé"));
}

#[test]
fn new_lua_without_colon_is_default_namespace() {
    assert_eq!(Identifier::new_lua("stone".to_string()), ident("rustaria", "stone"));
    assert_eq!(Identifier::new_lua(String::new()), ident("rustaria", ""));
}

#[test]
fn display_joins_with_colon() {
    assert_eq!(ident("rustaria", "air").to_string(), "rustaria:air");
    assert_eq!(ident("", "").to_string(), ":");
}

#[test]
fn parse_display_roundtrip() {
    for id in [ident("rustaria", "air"), ident("m", "a:b"), ident("", "x")] {
        assert_eq!(Identifier::new_lua(id.to_string()), id);
    }
    for s in ["a:b", "a:b:c", ":"] {
        assert_eq!(Identifier::new_lua(s.to_string()).to_string(), s);
    }
    assert_eq!(Identifier::new_lua("plain".to_string()).to_string(), "rustaria:plain");
}
