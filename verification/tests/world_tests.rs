use rustaria::identifier::Identifier;
use rustaria::registry::{Id, Registry};
use rustaria::world::{BlockDesc, BlockLayer, WorldAPI, WorldError};

fn ident(namespace: &str, path: &str) -> Identifier {
    Identifier { namespace: namespace.to_string(), path: path.to_string() }
}

fn world() -> WorldAPI {
    let tiles = Registry::new(vec![
        (ident("rustaria", "dirt"), 0, BlockDesc { collision: true }),
        (ident("rustaria", "air"), 0, BlockDesc { collision: false }),
    ]);
    let walls = Registry::new(vec![(ident("rustaria", "stone_wall"), 0, BlockDesc { collision: false })]);
    WorldAPI {
        block_layer: Registry::new(vec![
            (ident("rustaria", "tile"), 0, BlockLayer { blocks: tiles }),
            (ident("rustaria", "wall"), 1, BlockLayer { blocks: walls }),
        ]),
    }
}

#[test]
fn create_known_block() {
    let w = world();
    let b = w.create_block(ident("rustaria", "tile"), ident("rustaria", "dirt")).ok().unwrap();
    assert_eq!(b.layer.key, 0);
    assert_eq!(b.id.key, 1);
    assert!(b.get_collision());
    let b = w.create_block(ident("rustaria", "tile"), ident("rustaria", "air")).ok().unwrap();
    assert_eq!(b.id.key, 0);
    assert!(!b.collision);
    let b = w.create_block(ident("rustaria", "wall"), ident("rustaria", "stone_wall")).ok().unwrap();
    assert_eq!((b.layer.key, b.id.key), (1, 0));
}

#[test]
fn unknown_layer_is_an_error() {
    let w = world();
    match w.create_block(ident("rustaria", "liquid"), ident("rustaria", "dirt")) {
        Err(e @ WorldError::UnknownLayer(_)) => {
            assert_eq!(e.to_string(), "Could not find BlockLayer \"rustaria:liquid\"");
        }
        _ => panic!("expected an unknown layer"),
    }
}

#[test]
fn unknown_block_is_an_error() {
    let w = world();
    match w.create_block(ident("rustaria", "wall"), ident("rustaria", "dirt")) {
        Err(e @ WorldError::UnknownBlock(_, _)) => {
            assert_eq!(e.to_string(), "Could not find Block \"rustaria:dirt\" on layer \"rustaria:wall\"");
        }
        _ => panic!("expected an unknown block"),
    }
}

#[test]
fn block_desc_create() {
    let desc = BlockDesc { collision: true };
    let b = desc.create(Id::new(4), Id::new(2));
    assert_eq!((b.id.key, b.layer.key, b.collision), (4, 2, true));
    assert_eq!(world().block_layer().len(), 2);
}
