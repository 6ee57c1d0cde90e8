use table_canvas::audio::{control_flying_sound, Playback, SoundCommand};
use table_canvas::actions::{
    actions_outline, first_pressed_button, maintain_actions, mouse_just_released,
    performing_actions, Actions, PointerButton,
};
use table_canvas::canvas::{cleanup_empty_tables, finish_actions, make_table, Canvas};
use table_canvas::geometry::{span_count, CellScale, Point};
use table_canvas::session::{check_if_in_ui, FrameInput, Interaction, Session, UserState};
use table_canvas::table::{Cell, TableHead};

fn scale20() -> CellScale {
    CellScale { width: 20, height: 20 }
}

fn p(x: i32, y: i32) -> Point {
    Point { x, y }
}

fn places(t: &TableHead) -> Vec<(u32, u32)> {
    let mut v: Vec<(u32, u32)> = t.cells.iter().map(|c| (c.row, c.column)).collect();
    v.sort();
    v
}

fn frame(pointer: Option<Point>, pressed: &[PointerButton], just_pressed: &[PointerButton], just_released: &[PointerButton], ui: &[Interaction]) -> FrameInput {
    FrameInput {
        pointer,
        pressed: pressed.to_vec(),
        just_pressed: just_pressed.to_vec(),
        just_released: just_released.to_vec(),
        ui: ui.to_vec(),
    }
}

#[test]
fn end_to_end_two_by_two() {
    let mut t = TableHead::with_transform(p(0, 0));
    t.resize_to(p(45, -45), scale20());
    assert_eq!(t.num_rows, 2);
    assert_eq!(t.num_columns, 2);
    assert_eq!(t.cells.len(), 4);
    let mut offsets: Vec<(i128, i128)> = t.cells.iter().map(|c| (c.offset_x, c.offset_y)).collect();
    offsets.sort();
    assert_eq!(offsets, vec![(10, -30), (10, -10), (30, -30), (30, -10)]);
    assert_eq!(t.cell_heights, vec![20, 20]);
    assert_eq!(t.cell_widths, vec![20, 20]);
}

#[test]
fn resizing_twice_is_idempotent() {
    let mut t = TableHead::with_transform(p(0, 0));
    t.resize_to(p(65, -45), scale20());
    let before = t.cells.clone();
    t.resize_to(p(65, -45), scale20());
    assert_eq!(t.cells, before);
    assert_eq!(t.cells.len(), 6);
}

#[test]
fn resize_symmetry() {
    let mut direct = TableHead::with_transform(p(0, 0));
    direct.resize_to(p(60, -60), scale20());
    let mut t = TableHead::with_transform(p(0, 0));
    t.resize_to(p(60, -60), scale20());
    t.resize_to(p(100, -100), scale20());
    assert_eq!(t.cells.len(), 25);
    t.resize_to(p(60, -60), scale20());
    assert_eq!(places(&t), places(&direct));
    assert_eq!(t.cells, direct.cells);
}

#[test]
fn growth_creates_each_new_cell_once() {
    let mut t = TableHead::with_transform(p(0, 0));
    t.resize_to(p(40, -20), scale20());
    t.resize_to(p(60, -60), scale20());
    let mut expected = Vec::new();
    for r in 0..3u32 {
        for c in 0..3u32 {
            expected.push((r, c));
        }
    }
    assert_eq!(places(&t), expected);
    assert_eq!(t.cells[2], Cell::new(1, 0, scale20()));
}

#[test]
fn shrink_in_one_direction_and_grow_in_other() {
    let mut t = TableHead::with_transform(p(0, 0));
    t.resize_to(p(40, -60), scale20());
    t.resize_to(p(60, -20), scale20());
    assert_eq!(places(&t), vec![(0, 0), (0, 1), (0, 2)]);
    assert_eq!(t.cell_heights.len(), 1);
}

#[test]
fn up_left_drag_is_empty() {
    let mut t = TableHead::with_transform(p(10, 10));
    t.resize_to(p(-50, 50), scale20());
    assert_eq!(t.num_rows, 0);
    assert_eq!(t.num_columns, 0);
    assert!(t.cells.is_empty());
}

#[test]
fn odd_cell_centre_rounds_down() {
    let c = Cell::new(1, 2, CellScale { width: 5, height: 7 });
    assert_eq!(c.offset_x, 12);
    assert_eq!(c.offset_y, -10);
}

#[test]
fn span_counts() {
    assert_eq!(span_count(45, 20), 2);
    assert_eq!(span_count(40, 20), 2);
    assert_eq!(span_count(19, 20), 0);
    assert_eq!(span_count(-45, 20), 0);
    assert_eq!(span_count(4_294_967_295, 1), 4_294_967_295);
}

#[test]
fn outside_pointer_changes_nothing() {
    let mut a = Actions::new();
    maintain_actions(&mut a, Some(p(5, 5)), &[PointerButton::Left]);
    maintain_actions(&mut a, Some(p(30, -30)), &[PointerButton::Left]);
    let before = a;
    maintain_actions(&mut a, None, &[]);
    assert_eq!(a, before);
    maintain_actions(&mut a, Some(p(40, -40)), &[PointerButton::Left]);
    assert_eq!(a.from, p(5, 5));
    assert_eq!(a.to, p(40, -40));
    assert_eq!(a.button_push, Some(PointerButton::Left));
}

#[test]
fn new_action_takes_first_button_by_priority() {
    let mut a = Actions::new();
    maintain_actions(&mut a, Some(p(1, 2)), &[PointerButton::Middle, PointerButton::Right]);
    assert_eq!(a.button_push, Some(PointerButton::Right));
    assert_eq!(a.from, p(1, 2));
    assert_eq!(a.to, p(1, 2));
    assert_eq!(first_pressed_button(&[PointerButton::Other(3), PointerButton::Forward]), Some(PointerButton::Forward));
    assert_eq!(first_pressed_button(&[]), None);
    // Releasing the tracked button restarts the action.
    maintain_actions(&mut a, Some(p(9, 9)), &[]);
    assert_eq!(a.button_push, None);
    assert_eq!(a.from, p(9, 9));
    assert!(!performing_actions(&a));
}

#[test]
fn release_detection_and_outline() {
    assert!(mouse_just_released(&[PointerButton::Back, PointerButton::Middle]));
    assert!(!mouse_just_released(&[PointerButton::Back, PointerButton::Other(1)]));
    let a = Actions { button_push: Some(PointerButton::Left), from: p(1, 1), to: p(11, -9) };
    let o = actions_outline(&a);
    assert_eq!((o.origin, o.width, o.height), (p(1, 1), 10, -10));
}

#[test]
fn ui_hit_test() {
    assert_eq!(check_if_in_ui(&[Interaction::Idle, Interaction::Hovered]), UserState::Sidebar);
    assert_eq!(check_if_in_ui(&[Interaction::Idle]), UserState::Drawing);
    assert_eq!(check_if_in_ui(&[]), UserState::Drawing);
}

#[test]
fn degenerate_table_is_discarded() {
    let mut canvas = Canvas::new();
    let mut a = Actions { button_push: Some(PointerButton::Left), from: p(0, 0), to: p(0, 0) };
    make_table(&mut canvas, &a, scale20());
    a.to = p(15, -15);
    make_table(&mut canvas, &a, scale20());
    cleanup_empty_tables(&mut canvas);
    finish_actions(&mut a, &mut canvas);
    assert!(canvas.preview.is_none());
    assert!(canvas.tables.is_empty());
    assert_eq!(a, Actions::new());
}

#[test]
fn finished_table_is_kept() {
    let mut canvas = Canvas::new();
    let mut a = Actions { button_push: Some(PointerButton::Left), from: p(0, 0), to: p(0, 0) };
    make_table(&mut canvas, &a, scale20());
    a.to = p(45, -45);
    make_table(&mut canvas, &a, scale20());
    cleanup_empty_tables(&mut canvas);
    finish_actions(&mut a, &mut canvas);
    assert!(canvas.preview.is_none());
    assert_eq!(canvas.tables.len(), 1);
    assert_eq!(canvas.tables[0].cells.len(), 4);
}

fn running_session() -> Session {
    let mut s = Session::new(scale20());
    s.canvas_start();
    s
}

#[test]
fn sidebar_press_starts_nothing() {
    let mut s = running_session();
    let l = [PointerButton::Left];
    s.run_frame(&frame(Some(p(0, 0)), &l, &l, &[], &[Interaction::Pressed]));
    assert_eq!(s.mode, UserState::Sidebar);
    assert!(s.actions.button_push.is_none());
    assert!(s.canvas.preview.is_none());
    s.run_frame(&frame(Some(p(45, -45)), &l, &[], &[], &[Interaction::Pressed]));
    assert!(s.canvas.preview.is_none());
    assert!(s.canvas.tables.is_empty());
}

#[test]
fn drag_on_canvas_builds_and_keeps_table() {
    let mut s = running_session();
    let l = [PointerButton::Left];
    let idle = [Interaction::Idle];
    s.run_frame(&frame(Some(p(0, 0)), &l, &l, &[], &idle));
    assert_eq!(s.mode, UserState::Drawing);
    assert!(s.canvas.preview.is_some());
    s.run_frame(&frame(Some(p(45, -45)), &l, &[], &[], &idle));
    s.run_frame(&frame(None, &l, &[], &[], &idle));
    assert_eq!(s.canvas.preview.as_ref().unwrap().cells.len(), 4);
    s.run_frame(&frame(Some(p(45, -45)), &[], &[], &l, &idle));
    assert!(s.canvas.preview.is_none());
    assert_eq!(s.canvas.tables.len(), 1);
    assert_eq!(s.actions, Actions::new());
}

#[test]
fn click_without_drag_leaves_nothing() {
    let mut s = running_session();
    let l = [PointerButton::Left];
    let idle = [Interaction::Idle];
    s.run_frame(&frame(Some(p(0, 0)), &l, &l, &[], &idle));
    s.run_frame(&frame(Some(p(10, -10)), &[], &[], &l, &idle));
    assert!(s.canvas.preview.is_none());
    assert!(s.canvas.tables.is_empty());
}

#[test]
fn release_over_sidebar_discards_preview() {
    let mut s = running_session();
    let l = [PointerButton::Left];
    s.run_frame(&frame(Some(p(0, 0)), &l, &l, &[], &[Interaction::Idle]));
    s.run_frame(&frame(Some(p(45, -45)), &l, &[], &[], &[Interaction::Idle]));
    s.run_frame(&frame(Some(p(45, -45)), &[], &[], &l, &[Interaction::Hovered]));
    assert_eq!(s.mode, UserState::Sidebar);
    assert!(s.canvas.preview.is_none());
    assert!(s.canvas.tables.is_empty());
}

#[test]
fn sound_follows_action() {
    assert_eq!(control_flying_sound(Playback::Paused, true), SoundCommand::Resume);
    assert_eq!(control_flying_sound(Playback::Paused, false), SoundCommand::Keep);
    assert_eq!(control_flying_sound(Playback::Playing, false), SoundCommand::Pause);
    assert_eq!(control_flying_sound(Playback::Playing, true), SoundCommand::Keep);
    assert_eq!(control_flying_sound(Playback::Other, true), SoundCommand::Keep);
}

#[test]
fn other_button_release_does_not_end_drag() {
    let mut s = running_session();
    let l = [PointerButton::Left];
    let lr = [PointerButton::Left, PointerButton::Right];
    let r = [PointerButton::Right];
    let idle = [Interaction::Idle];
    s.run_frame(&frame(Some(p(0, 0)), &l, &l, &[], &idle));
    s.run_frame(&frame(Some(p(45, -45)), &l, &[], &[], &idle));
    s.run_frame(&frame(Some(p(45, -45)), &lr, &r, &[], &idle));
    s.run_frame(&frame(Some(p(65, -45)), &l, &[], &r, &idle));
    assert_eq!(s.actions.button_push, Some(PointerButton::Left));
    assert_eq!(s.actions.from, p(0, 0));
    assert!(s.canvas.tables.is_empty());
    let preview = s.canvas.preview.as_ref().unwrap();
    assert_eq!(preview.anchor, p(0, 0));
    assert_eq!(preview.cells.len(), 6);
    s.run_frame(&frame(Some(p(65, -45)), &[], &[], &l, &idle));
    assert!(s.canvas.preview.is_none());
    assert_eq!(s.canvas.tables.len(), 1);
    assert_eq!(s.canvas.tables[0].cells.len(), 6);
}

#[test]
fn release_of_any_driving_button_finishes() {
    let mut s = running_session();
    let back = [PointerButton::Back];
    let idle = [Interaction::Idle];
    s.run_frame(&frame(Some(p(0, 0)), &back, &back, &[], &idle));
    assert_eq!(s.actions.button_push, Some(PointerButton::Back));
    s.run_frame(&frame(Some(p(45, -45)), &back, &[], &[], &idle));
    s.run_frame(&frame(Some(p(45, -45)), &[], &[], &back, &idle));
    assert!(s.canvas.preview.is_none());
    assert_eq!(s.canvas.tables.len(), 1);
    assert_eq!(s.actions, Actions::new());
    let l = [PointerButton::Left];
    s.run_frame(&frame(Some(p(100, 100)), &l, &l, &[], &idle));
    assert_eq!(s.canvas.preview.as_ref().unwrap().anchor, p(100, 100));
    assert!(s.canvas.preview.as_ref().unwrap().cells.is_empty());
}
