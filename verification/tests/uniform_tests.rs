const FLOAT: u32 = 0x1406;
const INT: u32 = 0x1404;
use rustaria::uniform::{check_uniform, UniformError, UniformSlots};

#[test]
fn missing_uniform_is_reported() {
    assert_eq!(check_uniform(-1, FLOAT, FLOAT), Err(UniformError::UniformDoesNotExist));
}

#[test]
fn mismatched_uniform_carries_the_reported_type() {
    assert_eq!(
        check_uniform(3, INT, FLOAT),
        Err(UniformError::UniformTypeMismatch(INT))
    );
    assert_eq!(check_uniform(3, FLOAT, FLOAT), Ok(()));
    assert_eq!(check_uniform(0, FLOAT, FLOAT), Ok(()));
}

#[test]
fn each_location_gets_one_slot() {
    let mut slots: UniformSlots<&str> = UniformSlots::new();
    assert_eq!(slots.slot_for(4, "a"), 0);
    assert_eq!(slots.slot_for(7, "b"), 1);
    assert_eq!(slots.slot_for(4, "c"), 0);
    assert_eq!(slots.len(), 2);
    assert_eq!(*slots.get(0), (4, "a"));
    assert_eq!(*slots.get(1), (7, "b"));
}
