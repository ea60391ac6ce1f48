use todo_rs::layout::LayoutKind;
use todo_rs::ui::{Style, Ui};
use todo_rs::vec2::Vec2;

#[test]
fn vec2_add_is_componentwise() {
    let a = Vec2::new(3, -4);
    let b = Vec2::new(10, 6);
    assert_eq!(a.add(b), Vec2::new(13, 2));
}

#[test]
fn vec2_mul_projects_onto_an_axis() {
    let a = Vec2::new(7, 9);
    assert_eq!(a.mul(Vec2::new(1, 0)), Vec2::new(7, 0));
    assert_eq!(a.mul(Vec2::new(0, 1)), Vec2::new(0, 9));
}

#[test]
fn vertical_run_keeps_max_width_and_sums_heights() {
    let mut ui = Ui::new();
    ui.begin(Vec2::new(0, 0), LayoutKind::Vert);
    ui.label_fixed_width("aaaaa", 5, Style::Regular);
    ui.label_fixed_width("bbb", 3, Style::Regular);
    ui.label_fixed_width("ccccccccc", 9, Style::Regular);
    assert_eq!(ui.top_size(), Vec2::new(9, 3));
    ui.end();
    assert_eq!(ui.depth(), 0);
}

#[test]
fn horizontal_run_sums_widths_and_keeps_max_height() {
    let mut ui = Ui::new();
    ui.begin(Vec2::new(0, 0), LayoutKind::Horz);
    ui.label_fixed_width("aaaaa", 5, Style::Regular);
    ui.label_fixed_width("bbb", 3, Style::Regular);
    ui.label_fixed_width("ccccccccc", 9, Style::Regular);
    assert_eq!(ui.top_size(), Vec2::new(17, 1));
    ui.end();
}

#[test]
fn labels_are_placed_in_call_order_at_accumulated_offsets() {
    let mut ui = Ui::new();
    ui.begin(Vec2::new(0, 0), LayoutKind::Vert);
    ui.label_fixed_width("header", 10, Style::Regular);
    ui.begin_layout(LayoutKind::Horz);
    ui.label_fixed_width("left", 4, Style::Highlighted);
    ui.label_fixed_width("right", 4, Style::Regular);
    ui.end_layout();
    ui.label_fixed_width("footer", 6, Style::Regular);
    assert_eq!(ui.top_size(), Vec2::new(10, 3));
    ui.end();

    let cmds = ui.commands();
    assert_eq!(cmds.len(), 4);
    assert_eq!(cmds[0].pos, Vec2::new(0, 0));
    assert_eq!(cmds[0].text, "header");
    assert_eq!(cmds[0].style, Style::Regular);
    assert_eq!(cmds[1].pos, Vec2::new(0, 1));
    assert_eq!(cmds[1].text, "left");
    assert_eq!(cmds[1].style, Style::Highlighted);
    assert_eq!(cmds[2].pos, Vec2::new(4, 1));
    assert_eq!(cmds[2].text, "right");
    assert_eq!(cmds[3].pos, Vec2::new(0, 2));
    assert_eq!(cmds[3].text, "footer");
}

#[test]
fn nested_frame_opens_at_parent_available_position() {
    let mut ui = Ui::new();
    ui.begin(Vec2::new(2, 5), LayoutKind::Vert);
    ui.label_fixed_width("first", 8, Style::Regular);
    ui.begin_layout(LayoutKind::Vert);
    ui.label_fixed_width("second", 3, Style::Regular);
    ui.end_layout();
    ui.end();
    let cmds = ui.commands();
    assert_eq!(cmds[0].pos, Vec2::new(2, 5));
    assert_eq!(cmds[1].pos, Vec2::new(2, 6));
}

#[test]
fn begin_discards_the_previous_pass() {
    let mut ui = Ui::new();
    ui.begin(Vec2::new(0, 0), LayoutKind::Vert);
    ui.label_fixed_width("old", 3, Style::Regular);
    ui.end();
    assert_eq!(ui.commands().len(), 1);
    ui.begin(Vec2::new(0, 0), LayoutKind::Vert);
    assert_eq!(ui.commands().len(), 0);
    ui.end();
}

#[test]
fn run_time_checks_follow_the_stack_state() {
    let mut ui = Ui::new();
    assert!(!ui.can_begin_layout());
    assert!(!ui.can_label(5));
    assert!(!ui.can_end_layout());
    ui.begin(Vec2::new(0, 0), LayoutKind::Vert);
    assert!(ui.can_begin_layout());
    assert!(ui.can_label(5));
    assert!(!ui.can_end_layout());
    ui.begin_layout(LayoutKind::Horz);
    assert!(ui.can_end_layout());
    ui.end_layout();
    ui.end();
    assert_eq!(ui.depth(), 0);
}
