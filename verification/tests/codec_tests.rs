use todo_rs::codec::{decode, encode, parse_item, Status};

fn items(texts: &[&str]) -> Vec<String> {
    texts.iter().map(|t| t.to_string()).collect()
}

#[test]
fn toggle_swaps_the_two_statuses() {
    assert_eq!(Status::Todo.toggle(), Status::Done);
    assert_eq!(Status::Done.toggle(), Status::Todo);
}

#[test]
fn parse_item_reads_a_pending_line() {
    let r = parse_item("TODO: buy milk");
    assert_eq!(r, Some((Status::Todo, "buy milk")));
}

#[test]
fn parse_item_reads_a_completed_line() {
    let r = parse_item("DONE: pay rent");
    assert_eq!(r, Some((Status::Done, "pay rent")));
}

#[test]
fn parse_item_accepts_an_empty_text() {
    assert_eq!(parse_item("TODO: "), Some((Status::Todo, "")));
}

#[test]
fn parse_item_rejects_a_prefix_without_its_space() {
    assert_eq!(parse_item("TODO:x"), None);
}

#[test]
fn parse_item_rejects_short_and_foreign_lines() {
    assert_eq!(parse_item(""), None);
    assert_eq!(parse_item("TOD"), None);
    assert_eq!(parse_item("todo: x"), None);
    assert_eq!(parse_item("GARBAGE: x"), None);
}

#[test]
fn encode_writes_the_pending_block_before_the_completed_block() {
    let lines = encode(&items(&["buy milk"]), &items(&["pay rent"]));
    assert_eq!(lines, items(&["TODO: buy milk", "DONE: pay rent"]));
}

#[test]
fn encode_keeps_each_list_in_order() {
    let lines = encode(&items(&["a", "b"]), &items(&["c", "d"]));
    assert_eq!(lines, items(&["TODO: a", "TODO: b", "DONE: c", "DONE: d"]));
}

#[test]
fn decode_inverts_encode() {
    let lines = encode(&items(&["a", "b"]), &items(&["c"]));
    let (todos, dones) = decode(&lines).unwrap();
    assert_eq!(todos, items(&["a", "b"]));
    assert_eq!(dones, items(&["c"]));
}

#[test]
fn decode_splits_an_interleaved_document_by_prefix() {
    let lines = items(&["DONE: d1", "TODO: t1", "DONE: d2"]);
    let (todos, dones) = decode(&lines).unwrap();
    assert_eq!(todos, items(&["t1"]));
    assert_eq!(dones, items(&["d1", "d2"]));
}

#[test]
fn decode_of_an_empty_document_gives_two_empty_lists() {
    let (todos, dones) = decode(&items(&[])).unwrap();
    assert!(todos.is_empty());
    assert!(dones.is_empty());
}

#[test]
fn decode_reports_the_first_ill_formed_line_one_based() {
    let lines = items(&["TODO: buy milk", "DONE: pay rent", "GARBAGE: x"]);
    assert_eq!(decode(&lines), Err(3));
}

#[test]
fn decode_stops_at_the_first_bad_line() {
    let lines = items(&["oops", "TODO: later"]);
    assert_eq!(decode(&lines), Err(1));
}
