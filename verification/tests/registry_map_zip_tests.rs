use rustaria::identifier::Identifier;
use rustaria::registry::{Id, Registry};

fn ident(path: &str) -> Identifier {
    Identifier { namespace: "rustaria".to_string(), path: path.to_string() }
}

#[test]
fn map_keeps_ids_and_identifiers() {
    let reg = Registry::new(vec![(ident("b"), 0, 10u32), (ident("a"), 0, 20u32)]);
    let mapped: Registry<String> = reg
        .map(|id: Id<String>, v: u32| -> Result<String, ()> { Ok(format!("{}:{}", id.key, v)) })
        .ok()
        .unwrap();
    assert_eq!(mapped.len(), 2);
    assert_eq!(mapped.get(Id::new(0)), "0:20");
    assert_eq!(mapped.get(Id::new(1)), "1:10");
    assert_eq!(mapped.get_identifier(Id::new(0)).path, "a");
}

#[test]
fn map_stops_at_first_failure() {
    let reg = Registry::new(vec![(ident("a"), 0, 1u32), (ident("b"), 0, 2u32), (ident("c"), 0, 3u32)]);
    let r = reg.map(|_id: Id<u32>, v: u32| if v >= 2 { Err(v) } else { Ok(v) });
    assert_eq!(r.err(), Some(2));
}

#[test]
fn zip_joins_by_identifier() {
    let blocks = Registry::new(vec![(ident("dirt"), 0, 'd'), (ident("air"), 0, 'a'), (ident("stone"), 0, 's')]);
    let sprites = Registry::new(vec![(ident("stone"), 0, "stone.png"), (ident("lava"), 0, "lava.png"), (ident("air"), 0, "air.png")]);
    let zipped = blocks
        .zip(sprites, |src: Id<String>, own: Id<char>, v: &char, s: &str| -> Result<String, ()> {
            Ok(format!("{}{}{}{}", src.key, own.key, v, s))
        })
        .ok()
        .unwrap();
    // blocks by id: air(0), dirt(1), stone(2); sprites by id: air(0), lava(1), stone(2)
    assert_eq!(zipped, vec![Some("00aair.png".to_string()), None, Some("22sstone.png".to_string())]);
}

#[test]
fn zip_reports_failure() {
    let blocks = Registry::new(vec![(ident("a"), 0, 1u8)]);
    let other = Registry::new(vec![(ident("a"), 0, 7u8)]);
    let r = blocks.zip(other, |_s: Id<u8>, _o: Id<u8>, _v: &u8, w: u8| -> Result<u8, u8> { Err(w) });
    assert_eq!(r.err(), Some(7));
}
