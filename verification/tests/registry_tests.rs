use rustaria::identifier::Identifier;
use rustaria::registry::{Id, Registry};

fn ident(namespace: &str, path: &str) -> Identifier {
    Identifier { namespace: namespace.to_string(), path: path.to_string() }
}

fn paths(reg: &Registry<&'static str>) -> Vec<String> {
    (0..reg.len()).map(|i| reg.get_identifier(Id::new(i as u32)).to_string()).collect()
}

#[test]
fn entries_are_numbered_by_priority_then_identifier() {
    let reg = Registry::new(vec![
        (ident("rustaria", "stone"), 5, "stone"),
        (ident("rustaria", "air"), 0, "air"),
        (ident("rustaria", "dirt"), 5, "dirt"),
        (ident("mod", "zinc"), 5, "zinc"),
    ]);
    assert_eq!(reg.len(), 4);
    assert_eq!(paths(&reg), vec!["rustaria:air", "mod:zinc", "rustaria:dirt", "rustaria:stone"]);
    assert_eq!(*reg.get(Id::new(0)), "air");
    assert_eq!(*reg.get(Id::new(3)), "stone");
}

#[test]
fn order_matches_derived_identifier_order() {
    let idents = vec![ident("b", "a"), ident("a", "zz"), ident("a", "z"), ident("ä", "x"), ident("a", "")];
    let reg = Registry::new(idents.iter().cloned().map(|i| (i, 1, ())).collect());
    let mut sorted = idents.clone();
    sorted.sort();
    let got: Vec<Identifier> = (0..reg.len()).map(|i| reg.get_identifier(Id::new(i as u32)).clone()).collect();
    assert_eq!(got, sorted);
}

#[test]
fn get_id_finds_registered_identifiers() {
    let reg = Registry::new(vec![
        (ident("rustaria", "b"), 1, 'b'),
        (ident("rustaria", "a"), 2, 'a'),
    ]);
    assert_eq!(reg.get_id(&ident("rustaria", "b")).map(|id| id.key), Some(0));
    assert_eq!(reg.get_id(&ident("rustaria", "a")).map(|id| id.key), Some(1));
    assert!(reg.get_id(&ident("rustaria", "c")).is_none());
    assert!(reg.get_id(&ident("other", "a")).is_none());
}

#[test]
fn lookup_roundtrip() {
    let reg = Registry::new(vec![(ident("x", "1"), 3, 1), (ident("x", "2"), 2, 2), (ident("x", "3"), 1, 3)]);
    for i in 0..reg.len() {
        let id = Id::<i32>::new(i as u32);
        let name = reg.get_identifier(id).clone();
        assert_eq!(reg.get_id(&name).map(|id| id.index()), Some(i));
    }
}

#[test]
fn empty_registry() {
    let reg: Registry<u8> = Registry::new(Vec::new());
    assert_eq!(reg.len(), 0);
    assert!(reg.get_id(&ident("rustaria", "air")).is_none());
}

#[test]
fn default_registry_is_empty() {
    let r: Registry<u8> = Registry::default();
    assert_eq!(r.len(), 0);
}
