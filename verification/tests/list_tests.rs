use todo_rs::list::{
    list_delete, list_down, list_drag_down, list_drag_up, list_first, list_last, list_transfer,
    list_up,
};

fn items(texts: &[&str]) -> Vec<String> {
    texts.iter().map(|t| t.to_string()).collect()
}

#[test]
fn move_down_never_passes_the_last_item() {
    let list = items(&["a", "b", "c"]);
    let mut curr: usize = 0;
    for _ in 0..10 {
        list_down(&list, &mut curr);
        assert!(curr <= 2);
    }
    assert_eq!(curr, 2);
}

#[test]
fn move_up_never_passes_the_first_item() {
    let list = items(&["a", "b", "c"]);
    let mut curr: usize = 2;
    for _ in 0..10 {
        list_up(&mut curr);
    }
    assert_eq!(curr, 0);
    let _ = list;
}

#[test]
fn move_down_on_empty_list_is_a_noop() {
    let list = items(&[]);
    let mut curr: usize = 0;
    list_down(&list, &mut curr);
    assert_eq!(curr, 0);
}

#[test]
fn jump_first_goes_to_zero() {
    let mut curr: usize = 2;
    list_first(&mut curr);
    assert_eq!(curr, 0);
}

#[test]
fn jump_last_goes_to_the_last_index() {
    let list = items(&["a", "b", "c"]);
    let mut curr: usize = 0;
    list_last(&list, &mut curr);
    assert_eq!(curr, 2);
}

#[test]
fn jump_last_on_empty_list_is_a_noop() {
    let list = items(&[]);
    let mut curr: usize = 0;
    list_last(&list, &mut curr);
    assert_eq!(curr, 0);
}

#[test]
fn drag_down_swaps_with_the_successor_and_follows() {
    let mut list = items(&["A", "B", "C"]);
    let mut curr: usize = 1;
    list_drag_down(&mut list, &mut curr);
    assert_eq!(list, items(&["A", "C", "B"]));
    assert_eq!(curr, 2);
}

#[test]
fn drag_down_on_the_last_item_is_a_noop() {
    let mut list = items(&["A", "B"]);
    let mut curr: usize = 1;
    list_drag_down(&mut list, &mut curr);
    assert_eq!(list, items(&["A", "B"]));
    assert_eq!(curr, 1);
}

#[test]
fn drag_up_swaps_with_the_predecessor_and_follows() {
    let mut list = items(&["A", "B", "C"]);
    let mut curr: usize = 1;
    list_drag_up(&mut list, &mut curr);
    assert_eq!(list, items(&["B", "A", "C"]));
    assert_eq!(curr, 0);
}

#[test]
fn drag_up_on_the_first_item_is_a_noop() {
    let mut list = items(&["A", "B"]);
    let mut curr: usize = 0;
    list_drag_up(&mut list, &mut curr);
    assert_eq!(list, items(&["A", "B"]));
    assert_eq!(curr, 0);
}

#[test]
fn delete_the_only_item_leaves_empty_list_and_cursor_zero() {
    let mut list = items(&["only"]);
    let mut curr: usize = 0;
    list_delete(&mut list, &mut curr);
    assert!(list.is_empty());
    assert_eq!(curr, 0);
}

#[test]
fn delete_the_last_item_clamps_the_cursor() {
    let mut list = items(&["a", "b", "c"]);
    let mut curr: usize = 2;
    list_delete(&mut list, &mut curr);
    assert_eq!(list, items(&["a", "b"]));
    assert_eq!(curr, 1);
}

#[test]
fn delete_in_the_middle_keeps_the_cursor() {
    let mut list = items(&["a", "b", "c"]);
    let mut curr: usize = 1;
    list_delete(&mut list, &mut curr);
    assert_eq!(list, items(&["a", "c"]));
    assert_eq!(curr, 1);
}

#[test]
fn delete_with_a_stale_cursor_is_a_noop() {
    let mut list = items(&["a", "b"]);
    let mut curr: usize = 5;
    list_delete(&mut list, &mut curr);
    assert_eq!(list, items(&["a", "b"]));
    assert_eq!(curr, 5);
}

#[test]
fn transfer_moves_the_current_item_to_the_end_of_the_other_list() {
    let mut pending = items(&["Learn Rust", "Learn Zig"]);
    let mut completed = items(&[]);
    let mut curr: usize = 0;
    list_transfer(&mut completed, &mut pending, &mut curr);
    assert_eq!(pending, items(&["Learn Zig"]));
    assert_eq!(completed, items(&["Learn Rust"]));
    assert_eq!(curr, 0);
}

#[test]
fn transfer_appends_after_existing_destination_items() {
    let mut src = items(&["new"]);
    let mut dst = items(&["old"]);
    let mut curr: usize = 0;
    list_transfer(&mut dst, &mut src, &mut curr);
    assert_eq!(dst, items(&["old", "new"]));
    assert!(src.is_empty());
}

#[test]
fn repeated_transfer_drains_the_source_in_order() {
    let mut src = items(&["a", "b", "c"]);
    let mut dst = items(&["x"]);
    let mut curr: usize = 0;
    for _ in 0..3 {
        list_transfer(&mut dst, &mut src, &mut curr);
    }
    assert!(src.is_empty());
    assert_eq!(dst, items(&["x", "a", "b", "c"]));
    assert_eq!(curr, 0);
}

#[test]
fn transfer_with_a_stale_cursor_is_a_noop() {
    let mut src = items(&["a"]);
    let mut dst = items(&[]);
    let mut curr: usize = 3;
    list_transfer(&mut dst, &mut src, &mut curr);
    assert_eq!(src, items(&["a"]));
    assert!(dst.is_empty());
    assert_eq!(curr, 3);
}
