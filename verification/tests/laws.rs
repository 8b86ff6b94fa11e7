use narisha::dispatch::{BindingEvent, SeatEvent, WindowEvent};
use narisha::request::Request;
use narisha::state::{Edges, Seat, Window};
use narisha::wm::actions::Action;
use narisha::wm::WindowManager;

fn windows(ids: &[u32]) -> Vec<Window> {
    ids.iter()
        .map(|&id| {
            let mut w = Window::new(id, (id as i32, 0));
            w.new = false;
            w
        })
        .collect()
}

#[test]
fn law_focus_right_then_left_restores_order() {
    let mut s = Seat::new(1);
    let mut ws = windows(&[1, 2, 3, 4]);
    let before = ws.clone();
    let mut out = Vec::new();
    s.pending_action = Action::FocusRight;
    s.do_action(&mut ws, &mut out).unwrap();
    s.pending_action = Action::FocusLeft;
    s.do_action(&mut ws, &mut out).unwrap();
    assert_eq!(ws, before);
    assert_eq!(s.focused, Some(4));
}

#[test]
fn law_focus_left_then_right_restores_order() {
    let mut s = Seat::new(1);
    let mut ws = windows(&[5, 6, 7]);
    let before = ws.clone();
    let mut out = Vec::new();
    s.pending_action = Action::FocusLeft;
    s.do_action(&mut ws, &mut out).unwrap();
    assert_eq!(s.focused, Some(6));
    s.pending_action = Action::FocusRight;
    s.do_action(&mut ws, &mut out).unwrap();
    assert_eq!(ws, before);
    assert_eq!(s.focused, Some(7));
}

#[test]
fn law_actions_keep_every_window() {
    for action in [Action::FocusRight, Action::FocusLeft, Action::Close, Action::Exit] {
        let mut s = Seat::new(1);
        let mut ws = windows(&[1, 2, 3]);
        let mut out = Vec::new();
        s.pending_action = action;
        s.do_action(&mut ws, &mut out).unwrap();
        let mut ids: Vec<u32> = ws.iter().map(|w| w.id).collect();
        ids.sort();
        assert_eq!(ids, vec![1, 2, 3]);
    }
}

#[test]
fn law_pressed_binding_runs_recorded_action() {
    let mut wm = WindowManager::default();
    wm.add_seat(1);
    wm.add_xkb_binding(1, 9, Action::Spawn(vec!["foot".to_string()])).unwrap();
    wm.xkb_binding_event(1, 9, BindingEvent::Pressed).unwrap();
    assert_eq!(wm.seats[0].pending_action, Action::Spawn(vec!["foot".to_string()]));
}

#[test]
fn law_resize_grows_with_pointer() {
    let mut s = Seat::new(1);
    let mut w = Window::new(3, (0, 0));
    w.width = 200;
    w.height = 100;
    let mut out = Vec::new();
    s.pointer_resize(&w, Edges::bottom().union(Edges::right()), &mut out);
    s.op_dx = -50;
    s.op_dy = 25;
    out.clear();
    s.op_manage(&mut out);
    assert_eq!(out, vec![Request::ProposeDimensions { window: 3, width: 150, height: 125 }]);
}

#[test]
fn law_move_follows_pointer_in_render() {
    let mut wm = WindowManager::default();
    wm.add_seat(1);
    wm.add_window(2);
    wm.windows[0].x = 40;
    wm.windows[0].y = 50;
    wm.window_event(2, WindowEvent::PointerMoveRequested { seat: 1 });
    let mut out = Vec::new();
    wm.handle_manage_start(&mut out).unwrap();
    wm.seat_event(1, SeatEvent::OpDelta { dx: -10, dy: 5 }).unwrap();
    out.clear();
    wm.handle_render_start(&mut out);
    assert_eq!((wm.windows[0].x, wm.windows[0].y), (30, 55));
}

#[test]
fn law_top_resize_keeps_bottom_edge() {
    let mut wm = WindowManager::default();
    wm.add_seat(1);
    wm.add_window(2);
    wm.windows[0].y = 300;
    wm.windows[0].height = 100;
    wm.window_event(2, WindowEvent::PointerResizeRequested { seat: 1, edges: Edges::top() });
    let mut out = Vec::new();
    wm.handle_manage_start(&mut out).unwrap();
    wm.window_event(2, WindowEvent::Dimensions { width: 0, height: 160 });
    wm.handle_render_start(&mut out);
    assert_eq!(wm.windows[0].y + wm.windows[0].height, 400);
}

#[test]
fn law_manage_start_settles_state() {
    let mut wm = WindowManager::default();
    wm.add_output(1);
    wm.add_output(2);
    wm.output_event(2, narisha::dispatch::OutputEvent::Removed).unwrap();
    wm.add_seat(3);
    wm.add_seat(4);
    wm.seat_event(4, SeatEvent::Removed).unwrap();
    for id in [5, 6, 7] {
        wm.add_window(id);
    }
    wm.window_event(6, WindowEvent::Closed);
    wm.window_event(7, WindowEvent::PointerResizeRequested { seat: 3, edges: Edges::left() });
    let mut out = Vec::new();
    wm.handle_manage_start(&mut out).unwrap();
    assert!(wm.outputs.iter().all(|o| !o.removed));
    assert!(wm.windows.iter().all(|w| !w.closed
        && !w.new
        && w.pointer_move_requested.is_none()
        && w.pointer_resize_requested.is_none()));
    assert!(wm.seats.iter().all(|s| !s.removed
        && !s.new
        && s.pending_action == Action::Nothing
        && !s.op_release));
    assert_eq!(out.last(), Some(&Request::ManageFinish));
}

#[test]
fn law_manage_start_keeps_exactly_open_windows() {
    let mut wm = WindowManager::default();
    wm.add_seat(1);
    for id in [5, 6, 7, 8] {
        wm.add_window(id);
    }
    wm.window_event(5, WindowEvent::Closed);
    wm.window_event(8, WindowEvent::Closed);
    wm.seat_event(1, SeatEvent::WindowInteraction { window: 6 }).unwrap();
    let mut out = Vec::new();
    wm.handle_manage_start(&mut out).unwrap();
    let mut ids: Vec<u32> = wm.windows.iter().map(|w| w.id).collect();
    ids.sort();
    assert_eq!(ids, vec![6, 7]);
}

#[test]
fn law_render_only_moves_windows() {
    let mut wm = WindowManager::default();
    wm.add_seat(1);
    wm.add_window(2);
    wm.add_window(3);
    wm.window_event(3, WindowEvent::PointerMoveRequested { seat: 1 });
    let mut out = Vec::new();
    wm.handle_manage_start(&mut out).unwrap();
    wm.seat_event(1, SeatEvent::OpDelta { dx: 9, dy: 9 }).unwrap();
    let before: Vec<Window> = wm.windows.clone();
    out.clear();
    wm.handle_render_start(&mut out);
    assert_eq!(wm.windows.len(), before.len());
    for (a, b) in wm.windows.iter().zip(before.iter()) {
        assert_eq!(Window { x: b.x, y: b.y, ..*a }, *b);
    }
    assert_eq!(out.last(), Some(&Request::RenderFinish));
}

#[test]
fn law_no_operation_outlives_its_window() {
    let mut wm = WindowManager::default();
    wm.add_seat(1);
    wm.add_window(2);
    wm.window_event(2, WindowEvent::PointerResizeRequested { seat: 1, edges: Edges::right() });
    let mut out = Vec::new();
    wm.handle_manage_start(&mut out).unwrap();
    wm.window_event(2, WindowEvent::Closed);
    out.clear();
    wm.handle_manage_start(&mut out).unwrap();
    assert!(wm.windows.is_empty());
    assert_eq!(wm.seats[0].op, narisha::wm::actions::SeatOp::Idle);
    assert_eq!(out[0], Request::InformResizeEnd { window: 2 });
    assert_eq!(out[1], Request::OpEnd { seat: 1 });
    out.clear();
    wm.handle_render_start(&mut out);
    assert_eq!(out, vec![Request::RenderFinish]);
}

#[test]
fn law_announcing_output_and_seat_inserts_by_id() {
    let mut wm = WindowManager::default();
    wm.add_output(1);
    wm.add_output(2);
    wm.output_event(1, narisha::dispatch::OutputEvent::Removed).unwrap();
    wm.add_output(1);
    let ids: Vec<u32> = wm.outputs.iter().map(|o| o.id).collect();
    assert_eq!(ids, vec![1, 2]);
    assert!(!wm.outputs[0].removed);
    wm.add_seat(3);
    wm.add_seat(4);
    wm.seat_event(4, SeatEvent::PointerEnter { window: 9 }).unwrap();
    wm.seat_event(3, SeatEvent::PointerEnter { window: 8 }).unwrap();
    wm.add_seat(3);
    let ids: Vec<u32> = wm.seats.iter().map(|s| s.id).collect();
    assert_eq!(ids, vec![3, 4]);
    assert_eq!(wm.seats[0].hovered, None);
    assert!(wm.seats[0].new);
    assert_eq!(wm.seats[1].hovered, Some(9));
}

#[test]
fn law_seat_and_window_initialization_happen_once() {
    let mut wm = WindowManager::default();
    wm.add_seat(1);
    wm.add_window(2);
    let mut out = Vec::new();
    wm.handle_manage_start(&mut out).unwrap();
    assert!(out.iter().any(|r| matches!(r, Request::CreateXkbBinding { .. })));
    assert!(out.iter().any(|r| matches!(r, Request::ProposeDimensions { .. })));
    out.clear();
    wm.handle_manage_start(&mut out).unwrap();
    assert!(!out.iter().any(|r| matches!(
        r,
        Request::CreateXkbBinding { .. }
            | Request::CreatePointerBinding { .. }
            | Request::ProposeDimensions { .. }
            | Request::SetPosition { .. }
    )));
}

#[test]
fn law_init_new_seats_twice_changes_nothing() {
    let mut wm = WindowManager::default();
    wm.add_seat(1);
    wm.add_seat(2);
    let mut out = Vec::new();
    wm.init_new_seats(&mut out);
    assert_eq!(out.len(), 14);
    assert!(wm.seats.iter().all(|s| !s.new));
    out.clear();
    wm.init_new_seats(&mut out);
    assert!(out.is_empty());
    assert_eq!(wm.seats.iter().map(|s| s.id).collect::<Vec<_>>(), vec![1, 2]);
}

#[test]
fn law_init_new_windows_twice_changes_nothing() {
    let mut wm = WindowManager::default();
    wm.add_window(1);
    let mut out = Vec::new();
    wm.init_new_windows(&mut out);
    assert_eq!(out.len(), 2);
    let before = wm.windows.clone();
    out.clear();
    wm.init_new_windows(&mut out);
    assert!(out.is_empty());
    assert_eq!(wm.windows, before);
}

#[test]
fn law_ids_stay_unique() {
    let mut wm = WindowManager::default();
    for id in [1, 2, 1, 3, 2] {
        wm.add_output(id);
        wm.add_seat(id + 10);
    }
    wm.add_xkb_binding(11, 5, Action::Close).unwrap();
    wm.add_xkb_binding(11, 5, Action::Exit).unwrap();
    wm.add_pointer_binding(11, 6, Action::Move).unwrap();
    wm.add_pointer_binding(11, 6, Action::Resize).unwrap();
    let mut out = Vec::new();
    wm.handle_manage_start(&mut out).unwrap();
    let outs: Vec<u32> = wm.outputs.iter().map(|o| o.id).collect();
    let seats: Vec<u32> = wm.seats.iter().map(|s| s.id).collect();
    assert_eq!(outs, vec![1, 2, 3]);
    assert_eq!(seats, vec![11, 12, 13]);
    assert_eq!(wm.seats[0].xkb_bindings.len(), 1);
    assert_eq!(wm.seats[0].pointer_bindings.len(), 1);
}
