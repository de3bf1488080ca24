use rustaria::id_table::IdTable;

#[test]
fn fresh_ids_count_up() {
    let mut t = IdTable::new();
    assert_eq!(t.join(), 0);
    assert_eq!(t.join(), 1);
    assert_eq!(t.join(), 2);
}

#[test]
fn released_id_is_reused_first() {
    let mut t = IdTable::new();
    let a = t.join();
    let b = t.join();
    t.leave(a);
    assert_eq!(t.join(), a);
    assert_eq!(t.join(), 2);
    t.leave(b);
    t.leave(a);
    assert_eq!(t.join(), a);
    assert_eq!(t.join(), b);
    assert_eq!(t.join(), 3);
}

#[test]
fn leave_then_join_gives_same_id() {
    let mut t = IdTable::new();
    for _ in 0..5 {
        t.join();
    }
    t.leave(3);
    assert_eq!(t.join(), 3);
    assert_eq!(t.join(), 5);
}

#[test]
fn ids_in_use_are_distinct() {
    let mut t = IdTable::new();
    let mut used = Vec::new();
    for i in 0..20 {
        used.push(t.join());
        if i % 3 == 0 {
            let id = used.remove(0);
            t.leave(id);
        }
    }
    let mut sorted = used.clone();
    sorted.sort();
    sorted.dedup();
    assert_eq!(sorted.len(), used.len());
}

#[test]
fn live_ids_stay_distinct_over_a_history() {
    let mut t = IdTable::new();
    let mut live: Vec<usize> = Vec::new();
    for step in 0..40usize {
        if step % 3 == 2 && !live.is_empty() {
            let p = live.remove(step % live.len());
            t.leave(p);
        } else {
            let id = t.join();
            assert!(!live.contains(&id));
            live.push(id);
        }
    }
}
