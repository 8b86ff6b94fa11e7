use narisha::request::Request;
use narisha::state::{Edges, Output, Seat, Window};
use narisha::wm::actions::{Action, SeatOp};
use narisha::wm::WmError;

fn window(id: u32, x: i32, y: i32, width: i32, height: i32) -> Window {
    let mut w = Window::new(id, (x, y));
    w.width = width;
    w.height = height;
    w.new = false;
    w
}

#[test]
fn edges_union_and_contains() {
    let br = Edges::bottom().union(Edges::right());
    assert!(br.bottom && br.right && !br.top && !br.left);
    assert!(br.contains(Edges::bottom()));
    assert!(br.contains(Edges::right()));
    assert!(!br.contains(Edges::left()));
    assert!(!br.contains(Edges::top()));
    assert!(br.contains(Edges::none()));
    assert!(!Edges::none().contains(br));
}

#[test]
fn new_window_is_fresh() {
    let w = Window::new(7, (3, 4));
    assert_eq!(w.id, 7);
    assert!(w.new);
    assert!(!w.closed);
    assert_eq!((w.x, w.y, w.width, w.height), (3, 4, 0, 0));
    assert_eq!(w.pointer_move_requested, None);
    assert_eq!(w.pointer_resize_requested, None);
    assert_eq!(w.pointer_resize_requested_edges, Edges::none());
}

#[test]
fn set_position_moves_window_and_node() {
    let mut w = Window::new(2, (0, 0));
    let mut out = Vec::new();
    w.set_position(10, -5, &mut out);
    assert_eq!((w.x, w.y), (10, -5));
    assert_eq!(out, vec![Request::SetPosition { window: 2, x: 10, y: -5 }]);
}

#[test]
fn new_output_is_present() {
    let o = Output::new(9);
    assert_eq!(o, Output { id: 9, removed: false });
}

#[test]
fn new_seat_is_fresh() {
    let s = Seat::new(4);
    assert_eq!(s.id, 4);
    assert!(s.new);
    assert!(!s.removed);
    assert_eq!(s.focused, None);
    assert_eq!(s.hovered, None);
    assert_eq!(s.interacted, None);
    assert!(s.xkb_bindings.is_empty());
    assert!(s.pointer_bindings.is_empty());
    assert_eq!(s.pending_action, Action::Nothing);
    assert_eq!(s.op, SeatOp::Idle);
    assert_eq!((s.op_dx, s.op_dy, s.op_release), (0, 0, false));
}

#[test]
fn focus_top_focuses_last_window() {
    let mut s = Seat::new(1);
    let ws = vec![window(10, 0, 0, 5, 5), window(11, 0, 0, 5, 5)];
    let mut out = Vec::new();
    s.focus_top(&ws, &mut out);
    assert_eq!(s.focused, Some(11));
    assert_eq!(
        out,
        vec![Request::FocusWindow { seat: 1, window: 11 }, Request::PlaceTop { window: 11 }]
    );
}

#[test]
fn focus_top_without_windows_clears_focus() {
    let mut s = Seat::new(1);
    s.focused = Some(3);
    let mut out = Vec::new();
    s.focus_top(&Vec::new(), &mut out);
    assert_eq!(s.focused, None);
    assert_eq!(out, vec![Request::ClearFocus { seat: 1 }]);
}

#[test]
fn pointer_move_starts_move_op() {
    let mut s = Seat::new(1);
    s.op_dx = 5;
    s.op_dy = 6;
    let mut out = Vec::new();
    s.pointer_move(&window(20, 30, 40, 100, 200), &mut out);
    assert_eq!(s.interacted, Some(20));
    assert_eq!(s.op, SeatOp::Move { window: 20, start_x: 30, start_y: 40 });
    assert_eq!((s.op_dx, s.op_dy), (0, 0));
    assert_eq!(out, vec![Request::OpStartPointer { seat: 1 }]);
}

#[test]
fn pointer_resize_starts_resize_op() {
    let mut s = Seat::new(1);
    let mut out = Vec::new();
    s.pointer_resize(&window(20, 30, 40, 100, 200), Edges::left(), &mut out);
    assert_eq!(s.interacted, Some(20));
    assert_eq!(
        s.op,
        SeatOp::Resize {
            window: 20,
            start_x: 30,
            start_y: 40,
            start_width: 100,
            start_height: 200,
            edges: Edges::left()
        }
    );
    assert_eq!(
        out,
        vec![Request::OpStartPointer { seat: 1 }, Request::InformResizeStart { window: 20 }]
    );
}

#[test]
fn op_end_of_resize_informs_window() {
    let mut s = Seat::new(1);
    let mut out = Vec::new();
    s.pointer_resize(&window(20, 0, 0, 10, 10), Edges::right(), &mut out);
    out.clear();
    s.op_end(&mut out);
    assert_eq!(s.op, SeatOp::Idle);
    assert_eq!(out, vec![Request::InformResizeEnd { window: 20 }, Request::OpEnd { seat: 1 }]);
}

#[test]
fn op_end_of_move_ends_op_only() {
    let mut s = Seat::new(1);
    let mut out = Vec::new();
    s.pointer_move(&window(20, 0, 0, 10, 10), &mut out);
    out.clear();
    s.op_end(&mut out);
    assert_eq!(s.op, SeatOp::Idle);
    assert_eq!(out, vec![Request::OpEnd { seat: 1 }]);
}

#[test]
fn op_manage_proposes_resized_dimensions() {
    let mut s = Seat::new(1);
    let mut out = Vec::new();
    s.pointer_resize(&window(20, 0, 0, 100, 200), Edges::bottom().union(Edges::right()), &mut out);
    s.op_dx = 15;
    s.op_dy = -30;
    out.clear();
    s.op_manage(&mut out);
    assert_eq!(out, vec![Request::ProposeDimensions { window: 20, width: 115, height: 170 }]);
}

#[test]
fn op_manage_left_top_edges_shrink() {
    let mut s = Seat::new(1);
    let mut out = Vec::new();
    s.pointer_resize(&window(20, 0, 0, 100, 200), Edges::top().union(Edges::left()), &mut out);
    s.op_dx = 15;
    s.op_dy = -30;
    out.clear();
    s.op_manage(&mut out);
    assert_eq!(out, vec![Request::ProposeDimensions { window: 20, width: 85, height: 230 }]);
}

#[test]
fn op_manage_wraps_on_overflow() {
    let mut s = Seat::new(1);
    let mut out = Vec::new();
    s.pointer_resize(&window(20, 0, 0, i32::MAX, 0), Edges::right(), &mut out);
    s.op_dx = 1;
    out.clear();
    s.op_manage(&mut out);
    assert_eq!(out, vec![Request::ProposeDimensions { window: 20, width: i32::MIN, height: 0 }]);
}

#[test]
fn op_manage_of_move_sends_nothing() {
    let mut s = Seat::new(1);
    let mut out = Vec::new();
    s.pointer_move(&window(20, 0, 0, 10, 10), &mut out);
    out.clear();
    s.op_manage(&mut out);
    assert!(out.is_empty());
}

#[test]
fn do_action_spawn_sends_command() {
    let mut s = Seat::new(1);
    s.pending_action = Action::Spawn(vec!["foot".to_string(), "-e".to_string()]);
    let mut ws = Vec::new();
    let mut out = Vec::new();
    assert_eq!(s.do_action(&mut ws, &mut out), Ok(()));
    assert_eq!(
        out,
        vec![Request::Spawn { command: vec!["foot".to_string(), "-e".to_string()] }]
    );
    assert_eq!(s.pending_action, Action::Nothing);
}

#[test]
fn do_action_close_closes_focused() {
    let mut s = Seat::new(1);
    s.focused = Some(8);
    s.pending_action = Action::Close;
    let mut ws = Vec::new();
    let mut out = Vec::new();
    assert_eq!(s.do_action(&mut ws, &mut out), Ok(()));
    assert_eq!(out, vec![Request::CloseWindow { window: 8 }]);
    s.pending_action = Action::Close;
    s.focused = None;
    out.clear();
    assert_eq!(s.do_action(&mut ws, &mut out), Ok(()));
    assert!(out.is_empty());
}

#[test]
fn do_action_focus_right_rotates_left() {
    let mut s = Seat::new(1);
    s.pending_action = Action::FocusRight;
    let mut ws = vec![window(1, 0, 0, 1, 1), window(2, 0, 0, 1, 1), window(3, 0, 0, 1, 1)];
    let mut out = Vec::new();
    assert_eq!(s.do_action(&mut ws, &mut out), Ok(()));
    assert_eq!(ws.iter().map(|w| w.id).collect::<Vec<_>>(), vec![2, 3, 1]);
    assert_eq!(s.focused, Some(1));
    assert_eq!(out, vec![Request::FocusWindow { seat: 1, window: 1 }, Request::PlaceTop { window: 1 }]);
    assert_eq!(s.pending_action, Action::Nothing);
}

#[test]
fn do_action_focus_left_rotates_right() {
    let mut s = Seat::new(1);
    s.pending_action = Action::FocusLeft;
    let mut ws = vec![window(1, 0, 0, 1, 1), window(2, 0, 0, 1, 1), window(3, 0, 0, 1, 1)];
    let mut out = Vec::new();
    assert_eq!(s.do_action(&mut ws, &mut out), Ok(()));
    assert_eq!(ws.iter().map(|w| w.id).collect::<Vec<_>>(), vec![3, 1, 2]);
    assert_eq!(s.focused, Some(2));
}

#[test]
fn do_action_focus_without_windows_fails() {
    let mut s = Seat::new(1);
    s.pending_action = Action::FocusRight;
    let mut ws = Vec::new();
    let mut out = Vec::new();
    assert_eq!(s.do_action(&mut ws, &mut out), Err(WmError::NoWindowToRotate));
    s.pending_action = Action::FocusLeft;
    assert_eq!(s.do_action(&mut ws, &mut out), Err(WmError::NoWindowToRotate));
}

#[test]
fn do_action_move_starts_on_hovered() {
    let mut s = Seat::new(1);
    s.pending_action = Action::Move;
    s.hovered = Some(2);
    let mut ws = vec![window(1, 0, 0, 1, 1), window(2, 5, 6, 1, 1)];
    let mut out = Vec::new();
    assert_eq!(s.do_action(&mut ws, &mut out), Ok(()));
    assert_eq!(s.op, SeatOp::Move { window: 2, start_x: 5, start_y: 6 });
    assert_eq!(out, vec![Request::OpStartPointer { seat: 1 }]);
}

#[test]
fn do_action_move_without_hover_does_nothing() {
    let mut s = Seat::new(1);
    s.pending_action = Action::Move;
    let mut ws = vec![window(1, 0, 0, 1, 1)];
    let mut out = Vec::new();
    assert_eq!(s.do_action(&mut ws, &mut out), Ok(()));
    assert_eq!(s.op, SeatOp::Idle);
    assert!(out.is_empty());
    assert_eq!(s.pending_action, Action::Nothing);
}

#[test]
fn do_action_move_of_unknown_hovered_fails() {
    let mut s = Seat::new(1);
    s.pending_action = Action::Move;
    s.hovered = Some(9);
    let mut ws = vec![window(1, 0, 0, 1, 1)];
    let mut out = Vec::new();
    assert_eq!(s.do_action(&mut ws, &mut out), Err(WmError::HoveredWindowNotFound));
}

#[test]
fn do_action_resize_drags_bottom_right() {
    let mut s = Seat::new(1);
    s.pending_action = Action::Resize;
    s.hovered = Some(2);
    let mut ws = vec![window(2, 5, 6, 7, 8)];
    let mut out = Vec::new();
    assert_eq!(s.do_action(&mut ws, &mut out), Ok(()));
    assert_eq!(
        s.op,
        SeatOp::Resize {
            window: 2,
            start_x: 5,
            start_y: 6,
            start_width: 7,
            start_height: 8,
            edges: Edges::bottom().union(Edges::right())
        }
    );
    assert_eq!(
        out,
        vec![Request::OpStartPointer { seat: 1 }, Request::InformResizeStart { window: 2 }]
    );
}

#[test]
fn do_action_resize_during_op_does_nothing() {
    let mut s = Seat::new(1);
    s.pending_action = Action::Resize;
    s.hovered = Some(2);
    s.op = SeatOp::Spawn { window: 2 };
    let mut ws = vec![window(2, 5, 6, 7, 8)];
    let mut out = Vec::new();
    assert_eq!(s.do_action(&mut ws, &mut out), Ok(()));
    assert_eq!(s.op, SeatOp::Spawn { window: 2 });
    assert!(out.is_empty());
}

#[test]
fn do_action_exit_ends_session() {
    let mut s = Seat::new(1);
    s.pending_action = Action::Exit;
    let mut ws = Vec::new();
    let mut out = Vec::new();
    assert_eq!(s.do_action(&mut ws, &mut out), Ok(()));
    assert_eq!(out, vec![Request::ExitSession]);
}

#[test]
fn do_action_fullscreen_and_nothing_send_nothing() {
    let mut s = Seat::new(1);
    s.focused = Some(1);
    s.pending_action = Action::Fullscreen;
    let mut ws = vec![window(1, 0, 0, 1, 1)];
    let mut out = Vec::new();
    assert_eq!(s.do_action(&mut ws, &mut out), Ok(()));
    assert!(out.is_empty());
    assert_eq!(s.pending_action, Action::Nothing);
    assert_eq!(s.do_action(&mut ws, &mut out), Ok(()));
    assert!(out.is_empty());
}

#[test]
fn duplicate_keeps_action() {
    let a = Action::Spawn(vec!["kitty".to_string()]);
    assert_eq!(a.duplicate(), a);
    assert_eq!(Action::Close.duplicate(), Action::Close);
}

#[test]
fn do_action_spawn_of_empty_command_fails() {
    let mut s = Seat::new(1);
    s.pending_action = Action::Spawn(Vec::new());
    let mut ws = Vec::new();
    let mut out = Vec::new();
    assert_eq!(s.do_action(&mut ws, &mut out), Err(WmError::EmptyCommand));
    assert!(out.is_empty());
}
