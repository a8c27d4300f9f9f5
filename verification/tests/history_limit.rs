use clamtk_rs::history::{add_entry, clear_history};

fn keys(v: &[(i128, &'static str)]) -> Vec<i128> {
    v.iter().map(|e| e.0).collect()
}

#[test]
fn new_record_takes_its_place_by_time() {
    let entries = vec![(3i128, "c"), (1i128, "a")];
    let r = add_entry(entries, (2, "b"), 10);
    assert_eq!(r, vec![(3, "c"), (2, "b"), (1, "a")]);
}

#[test]
fn newest_record_comes_first() {
    let r = add_entry(vec![(1i128, "a")], (5, "e"), 10);
    assert_eq!(keys(&r), vec![5, 1]);
}

#[test]
fn oldest_records_leave_past_the_limit() {
    let entries = vec![(3i128, "c"), (1i128, "a")];
    let r = add_entry(entries, (2, "b"), 2);
    assert_eq!(r, vec![(3, "c"), (2, "b")]);
}

#[test]
fn full_history_takes_a_newer_record() {
    let stored = vec![(2i128, "e2"), (1i128, "e1")];
    let r = add_entry(stored, (3, "e3"), 2);
    assert_eq!(r, vec![(3, "e3"), (2, "e2")]);
}

#[test]
fn stored_order_does_not_matter() {
    let stored = vec![(1i128, "a"), (5i128, "e"), (3i128, "c")];
    let r = add_entry(stored, (4, "d"), 3);
    assert_eq!(r, vec![(5, "e"), (4, "d"), (3, "c")]);
}

#[test]
fn an_older_record_than_a_full_history_is_dropped() {
    let stored = vec![(9i128, "i"), (8i128, "h")];
    let r = add_entry(stored, (1, "a"), 2);
    assert_eq!(r, vec![(9, "i"), (8, "h")]);
}

#[test]
fn records_of_one_time_at_the_limit_keep_the_first_added() {
    let r = add_entry(vec![(4i128, "x"), (4i128, "y")], (4, "z"), 2);
    assert_eq!(r, vec![(4, "x"), (4, "y")]);
}

#[test]
fn records_of_one_time_keep_their_order() {
    let entries = vec![(4i128, "x"), (4i128, "y")];
    let r = add_entry(entries, (4, "z"), 10);
    assert_eq!(r, vec![(4, "x"), (4, "y"), (4, "z")]);
}

#[test]
fn zero_limit_keeps_nothing() {
    let r = add_entry(vec![(1i128, "a")], (2, "b"), 0);
    assert!(r.is_empty());
}

#[test]
fn empty_history_gets_its_first_record() {
    let r = add_entry(Vec::new(), (7i128, "first"), 500);
    assert_eq!(r, vec![(7, "first")]);
}

#[test]
fn cleared_history_is_an_empty_list() {
    let (file, text) = clear_history(Some("/home/u/.local/share"));
    assert_eq!(file, "/home/u/.local/share/clamtk-rs/history.json");
    assert_eq!(text, "[]");
    assert_eq!(clear_history(None).0, "/tmp/clamtk-rs/history.json");
}
