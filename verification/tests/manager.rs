use narisha::dispatch::{
    registry_global, BindingEvent, Flow, GlobalAction, Interface, ManagerEvent, OutputEvent,
    SeatEvent, WindowEvent,
};
use narisha::request::Request;
use narisha::state::{Edges, Window};
use narisha::wm::actions::{Action, SeatOp};
use narisha::wm::{WindowManager, WmError, BUTTON_LEFT, BUTTON_RIGHT, KEY_ESC, KEY_LEFT, KEY_Q, KEY_RIGHT, KEY_SPACE, MOD4};

fn ids(wm: &WindowManager) -> Vec<u32> {
    wm.windows.iter().map(|w| w.id).collect()
}

#[test]
fn default_manager_is_empty() {
    let wm = WindowManager::default();
    assert!(wm.windows.is_empty() && wm.outputs.is_empty() && wm.seats.is_empty());
}

#[test]
fn add_window_puts_it_on_top() {
    let mut wm = WindowManager::default();
    wm.add_window(5);
    wm.add_window(6);
    assert_eq!(ids(&wm), vec![5, 6]);
    assert_eq!(wm.windows[1], Window::new(6, (0, 0)));
}

#[test]
fn add_output_and_seat_replace_same_id() {
    let mut wm = WindowManager::default();
    wm.add_output(3);
    wm.output_event(3, OutputEvent::Removed).unwrap();
    wm.add_output(3);
    assert_eq!(wm.outputs.len(), 1);
    assert!(!wm.outputs[0].removed);
    wm.add_seat(4);
    wm.seat_event(4, SeatEvent::Removed).unwrap();
    wm.add_seat(4);
    assert_eq!(wm.seats.len(), 1);
    assert!(!wm.seats[0].removed);
    assert!(wm.seats[0].new);
}

#[test]
fn window_events_update_the_window() {
    let mut wm = WindowManager::default();
    wm.add_window(5);
    wm.window_event(5, WindowEvent::Dimensions { width: 640, height: 480 });
    wm.window_event(5, WindowEvent::PointerMoveRequested { seat: 1 });
    wm.window_event(5, WindowEvent::PointerResizeRequested { seat: 2, edges: Edges::top() });
    wm.window_event(5, WindowEvent::Closed);
    wm.window_event(99, WindowEvent::Closed);
    let w = wm.windows[0];
    assert_eq!((w.width, w.height), (640, 480));
    assert_eq!(w.pointer_move_requested, Some(1));
    assert_eq!(w.pointer_resize_requested, Some(2));
    assert_eq!(w.pointer_resize_requested_edges, Edges::top());
    assert!(w.closed);
    assert_eq!(wm.windows.len(), 1);
}

#[test]
fn unknown_output_or_seat_is_an_error() {
    let mut wm = WindowManager::default();
    assert_eq!(wm.output_event(1, OutputEvent::Other), Err(WmError::OutputNotFound));
    assert_eq!(wm.seat_event(1, SeatEvent::Other), Err(WmError::SeatNotFound));
    assert_eq!(wm.xkb_binding_event(1, 2, BindingEvent::Pressed), Err(WmError::SeatNotFound));
    assert_eq!(wm.pointer_binding_event(1, 2, BindingEvent::Other), Err(WmError::SeatNotFound));
    wm.add_seat(1);
    assert_eq!(wm.xkb_binding_event(1, 2, BindingEvent::Other), Err(WmError::XkbBindingNotFound));
    assert_eq!(
        wm.pointer_binding_event(1, 2, BindingEvent::Pressed),
        Err(WmError::PointerBindingNotFound)
    );
    assert_eq!(wm.add_xkb_binding(9, 2, Action::Close), Err(WmError::SeatNotFound));
}

#[test]
fn seat_events_update_the_seat() {
    let mut wm = WindowManager::default();
    wm.add_seat(1);
    wm.seat_event(1, SeatEvent::PointerEnter { window: 4 }).unwrap();
    assert_eq!(wm.seats[0].hovered, Some(4));
    wm.seat_event(1, SeatEvent::PointerLeave).unwrap();
    assert_eq!(wm.seats[0].hovered, None);
    wm.seat_event(1, SeatEvent::WindowInteraction { window: 4 }).unwrap();
    assert_eq!(wm.seats[0].interacted, Some(4));
    wm.seat_event(1, SeatEvent::OpDelta { dx: 3, dy: -2 }).unwrap();
    assert_eq!((wm.seats[0].op_dx, wm.seats[0].op_dy), (3, -2));
    wm.seat_event(1, SeatEvent::OpRelease).unwrap();
    assert!(wm.seats[0].op_release);
}

#[test]
fn pressed_bindings_set_pending_action() {
    let mut wm = WindowManager::default();
    wm.add_seat(1);
    wm.add_xkb_binding(1, 20, Action::FocusLeft).unwrap();
    wm.add_pointer_binding(1, 21, Action::Move).unwrap();
    wm.xkb_binding_event(1, 20, BindingEvent::Other).unwrap();
    assert_eq!(wm.seats[0].pending_action, Action::Nothing);
    wm.xkb_binding_event(1, 20, BindingEvent::Pressed).unwrap();
    assert_eq!(wm.seats[0].pending_action, Action::FocusLeft);
    wm.pointer_binding_event(1, 21, BindingEvent::Pressed).unwrap();
    assert_eq!(wm.seats[0].pending_action, Action::Move);
    wm.add_xkb_binding(1, 20, Action::Exit).unwrap();
    assert_eq!(wm.seats[0].xkb_bindings.len(), 1);
    wm.xkb_binding_event(1, 20, BindingEvent::Pressed).unwrap();
    assert_eq!(wm.seats[0].pending_action, Action::Exit);
}

#[test]
fn manage_start_creates_bindings_of_new_seats() {
    let mut wm = WindowManager::default();
    wm.add_seat(1);
    let mut out = Vec::new();
    assert_eq!(wm.handle_manage_start(&mut out), Ok(()));
    assert!(!wm.seats[0].new);
    assert_eq!(
        out,
        vec![
            Request::CreateXkbBinding {
                seat: 1,
                keysym: KEY_SPACE,
                modifiers: MOD4,
                action: Action::Spawn(vec!["kitty".to_string()])
            },
            Request::CreateXkbBinding { seat: 1, keysym: KEY_Q, modifiers: MOD4, action: Action::Close },
            Request::CreateXkbBinding {
                seat: 1,
                keysym: KEY_RIGHT,
                modifiers: MOD4,
                action: Action::FocusRight
            },
            Request::CreateXkbBinding {
                seat: 1,
                keysym: KEY_LEFT,
                modifiers: MOD4,
                action: Action::FocusLeft
            },
            Request::CreateXkbBinding { seat: 1, keysym: KEY_ESC, modifiers: MOD4, action: Action::Exit },
            Request::CreatePointerBinding {
                seat: 1,
                button: BUTTON_LEFT,
                modifiers: MOD4,
                action: Action::Move
            },
            Request::CreatePointerBinding {
                seat: 1,
                button: BUTTON_RIGHT,
                modifiers: MOD4,
                action: Action::Resize
            },
            Request::ClearFocus { seat: 1 },
            Request::ManageFinish,
        ]
    );
    assert_eq!((KEY_SPACE, KEY_Q, KEY_ESC, MOD4), (0x20, 0x71, 0xff1b, 64));
}

#[test]
fn manage_start_removes_and_places() {
    let mut wm = WindowManager::default();
    wm.add_output(30);
    wm.add_output(31);
    wm.output_event(30, OutputEvent::Removed).unwrap();
    wm.add_window(1);
    wm.add_window(2);
    wm.window_event(2, WindowEvent::Dimensions { width: 50, height: 60 });
    let mut out = Vec::new();
    wm.handle_manage_start(&mut out).unwrap();
    assert_eq!(
        out,
        vec![
            Request::DestroyOutput { output: 30 },
            Request::SetPosition { window: 1, x: 0, y: 0 },
            Request::ProposeDimensions { window: 1, width: 0, height: 0 },
            Request::SetPosition { window: 2, x: 0, y: 0 },
            Request::ProposeDimensions { window: 2, width: 50, height: 60 },
            Request::ManageFinish,
        ]
    );
    assert_eq!(wm.outputs.len(), 1);
    assert_eq!(wm.outputs[0].id, 31);
    assert!(wm.windows.iter().all(|w| !w.new));
    // A second manage sequence has nothing left to place.
    out.clear();
    wm.window_event(1, WindowEvent::Closed);
    wm.handle_manage_start(&mut out).unwrap();
    assert_eq!(out, vec![Request::ManageFinish]);
    assert_eq!(ids(&wm), vec![2]);
}

#[test]
fn manage_start_destroys_removed_seat_and_its_bindings() {
    let mut wm = WindowManager::default();
    wm.add_seat(1);
    let mut out = Vec::new();
    wm.handle_manage_start(&mut out).unwrap();
    wm.add_xkb_binding(1, 40, Action::Close).unwrap();
    wm.add_pointer_binding(1, 41, Action::Move).unwrap();
    wm.seat_event(1, SeatEvent::Removed).unwrap();
    out.clear();
    wm.handle_manage_start(&mut out).unwrap();
    assert!(wm.seats.is_empty());
    assert_eq!(
        out,
        vec![
            Request::DestroyXkbBinding { binding: 40 },
            Request::DestroyPointerBinding { binding: 41 },
            Request::DestroySeat { seat: 1 },
            Request::ManageFinish,
        ]
    );
}

fn settled_manager() -> (WindowManager, Vec<Request>) {
    let mut wm = WindowManager::default();
    wm.add_seat(1);
    wm.add_window(10);
    wm.add_window(11);
    wm.add_window(12);
    let mut out = Vec::new();
    wm.handle_manage_start(&mut out).unwrap();
    out.clear();
    (wm, out)
}

#[test]
fn manage_start_raises_interacted_window_and_focuses_it() {
    let (mut wm, mut out) = settled_manager();
    assert_eq!(wm.seats[0].focused, Some(12));
    wm.seat_event(1, SeatEvent::WindowInteraction { window: 10 }).unwrap();
    wm.handle_manage_start(&mut out).unwrap();
    assert_eq!(ids(&wm), vec![11, 12, 10]);
    assert_eq!(wm.seats[0].focused, Some(10));
    assert_eq!(wm.seats[0].interacted, None);
    assert_eq!(
        out,
        vec![
            Request::FocusWindow { seat: 1, window: 10 },
            Request::PlaceTop { window: 10 },
            Request::ManageFinish,
        ]
    );
}

#[test]
fn manage_start_interaction_with_unknown_window_fails() {
    let (mut wm, mut out) = settled_manager();
    wm.seat_event(1, SeatEvent::WindowInteraction { window: 77 }).unwrap();
    assert_eq!(wm.handle_manage_start(&mut out), Err(WmError::InteractedWindowNotFound));
}

#[test]
fn manage_start_runs_focus_right_binding() {
    let (mut wm, mut out) = settled_manager();
    wm.add_xkb_binding(1, 50, Action::FocusRight).unwrap();
    wm.xkb_binding_event(1, 50, BindingEvent::Pressed).unwrap();
    wm.handle_manage_start(&mut out).unwrap();
    assert_eq!(ids(&wm), vec![11, 12, 10]);
    assert_eq!(wm.seats[0].focused, Some(10));
    assert_eq!(wm.seats[0].pending_action, Action::Nothing);
}

#[test]
fn manage_start_hands_move_request_to_seat() {
    let (mut wm, mut out) = settled_manager();
    wm.window_event(11, WindowEvent::PointerMoveRequested { seat: 1 });
    wm.handle_manage_start(&mut out).unwrap();
    assert!(wm.windows.iter().all(|w| w.pointer_move_requested.is_none()));
    assert_eq!(wm.seats[0].op, SeatOp::Move { window: 11, start_x: 0, start_y: 0 });
    // Starting the move is an interaction: the same sequence raises and focuses the window.
    assert_eq!(ids(&wm), vec![10, 12, 11]);
    assert_eq!(wm.seats[0].focused, Some(11));
    assert_eq!(
        out,
        vec![
            Request::OpStartPointer { seat: 1 },
            Request::FocusWindow { seat: 1, window: 11 },
            Request::PlaceTop { window: 11 },
            Request::ManageFinish,
        ]
    );
}

#[test]
fn manage_start_move_request_of_unknown_seat_fails() {
    let (mut wm, mut out) = settled_manager();
    wm.window_event(11, WindowEvent::PointerMoveRequested { seat: 9 });
    assert_eq!(wm.handle_manage_start(&mut out), Err(WmError::SeatNotFound));
    let (mut wm, mut out) = settled_manager();
    wm.window_event(11, WindowEvent::PointerResizeRequested { seat: 9, edges: Edges::left() });
    assert_eq!(wm.handle_manage_start(&mut out), Err(WmError::SeatNotFound));
}

#[test]
fn manage_start_resize_proposes_and_release_ends() {
    let (mut wm, mut out) = settled_manager();
    wm.window_event(12, WindowEvent::Dimensions { width: 100, height: 100 });
    wm.window_event(12, WindowEvent::PointerResizeRequested { seat: 1, edges: Edges::right() });
    wm.handle_manage_start(&mut out).unwrap();
    assert_eq!(
        out,
        vec![
            Request::OpStartPointer { seat: 1 },
            Request::InformResizeStart { window: 12 },
            Request::FocusWindow { seat: 1, window: 12 },
            Request::PlaceTop { window: 12 },
            Request::ProposeDimensions { window: 12, width: 100, height: 100 },
            Request::ManageFinish,
        ]
    );
    wm.seat_event(1, SeatEvent::OpDelta { dx: 20, dy: 5 }).unwrap();
    wm.seat_event(1, SeatEvent::OpRelease).unwrap();
    out.clear();
    wm.handle_manage_start(&mut out).unwrap();
    assert_eq!(
        out,
        vec![
            Request::FocusWindow { seat: 1, window: 12 },
            Request::PlaceTop { window: 12 },
            Request::InformResizeEnd { window: 12 },
            Request::OpEnd { seat: 1 },
            Request::ManageFinish,
        ]
    );
    assert_eq!(wm.seats[0].op, SeatOp::Idle);
    assert!(!wm.seats[0].op_release);
}

#[test]
fn closing_window_ends_its_operation() {
    let (mut wm, mut out) = settled_manager();
    wm.window_event(10, WindowEvent::PointerMoveRequested { seat: 1 });
    wm.handle_manage_start(&mut out).unwrap();
    wm.window_event(10, WindowEvent::Closed);
    out.clear();
    wm.handle_manage_start(&mut out).unwrap();
    assert_eq!(wm.seats[0].op, SeatOp::Idle);
    assert_eq!(out[0], Request::OpEnd { seat: 1 });
    assert_eq!(ids(&wm), vec![11, 12]);
}

#[test]
fn render_start_moves_window_of_move_op() {
    let (mut wm, mut out) = settled_manager();
    wm.window_event(11, WindowEvent::PointerMoveRequested { seat: 1 });
    wm.handle_manage_start(&mut out).unwrap();
    wm.seat_event(1, SeatEvent::OpDelta { dx: 7, dy: -3 }).unwrap();
    out.clear();
    wm.handle_render_start(&mut out);
    assert_eq!(out, vec![Request::SetPosition { window: 11, x: 7, y: -3 }, Request::RenderFinish]);
    assert_eq!(ids(&wm), vec![10, 12, 11]);
    assert_eq!((wm.windows[2].x, wm.windows[2].y), (7, -3));
}

#[test]
fn render_start_left_resize_keeps_right_edge() {
    let (mut wm, mut out) = settled_manager();
    wm.windows[2].x = 100;
    wm.windows[2].width = 50;
    wm.window_event(12, WindowEvent::PointerResizeRequested { seat: 1, edges: Edges::left() });
    wm.handle_manage_start(&mut out).unwrap();
    wm.window_event(12, WindowEvent::Dimensions { width: 80, height: 0 });
    out.clear();
    wm.handle_render_start(&mut out);
    assert_eq!(out, vec![Request::SetPosition { window: 12, x: 70, y: 0 }, Request::RenderFinish]);
}

#[test]
fn render_start_without_ops_only_finishes() {
    let (mut wm, mut out) = settled_manager();
    wm.handle_render_start(&mut out);
    assert_eq!(out, vec![Request::RenderFinish]);
}

#[test]
fn manager_events_decide_flow() {
    let mut wm = WindowManager::default();
    let mut out = Vec::new();
    assert_eq!(wm.manager_event(ManagerEvent::Unavailable, true, &mut out), Ok(Flow::Exit { code: 1 }));
    assert_eq!(wm.manager_event(ManagerEvent::Finished, true, &mut out), Ok(Flow::Exit { code: 0 }));
    assert_eq!(
        wm.manager_event(ManagerEvent::ManageStart, false, &mut out),
        Err(WmError::XkbBindingsMissing)
    );
    assert_eq!(wm.manager_event(ManagerEvent::Window { id: 3 }, true, &mut out), Ok(Flow::Continue));
    assert_eq!(wm.manager_event(ManagerEvent::Output { id: 4 }, true, &mut out), Ok(Flow::Continue));
    assert_eq!(wm.manager_event(ManagerEvent::Seat { id: 5 }, true, &mut out), Ok(Flow::Continue));
    assert_eq!(wm.manager_event(ManagerEvent::SessionLocked, true, &mut out), Ok(Flow::Continue));
    assert_eq!(wm.manager_event(ManagerEvent::SessionUnlocked, true, &mut out), Ok(Flow::Continue));
    assert!(out.is_empty());
    assert_eq!((wm.windows.len(), wm.outputs.len(), wm.seats.len()), (1, 1, 1));
    assert_eq!(wm.manager_event(ManagerEvent::RenderStart, true, &mut out), Ok(Flow::Continue));
    assert_eq!(out, vec![Request::RenderFinish]);
    out.clear();
    assert_eq!(wm.manager_event(ManagerEvent::ManageStart, true, &mut out), Ok(Flow::Continue));
    assert_eq!(out.last(), Some(&Request::ManageFinish));
}

#[test]
fn registry_binds_recent_enough_globals() {
    assert_eq!(
        registry_global("river_window_manager_v1", 4),
        GlobalAction::Bind { interface: Interface::WindowManager, version: 4 }
    );
    assert_eq!(
        registry_global("river_window_manager_v1", 7),
        GlobalAction::Bind { interface: Interface::WindowManager, version: 4 }
    );
    assert_eq!(
        registry_global("river_window_manager_v1", 3),
        GlobalAction::TooOld { interface: Interface::WindowManager, offered: 3, required: 4 }
    );
    assert_eq!(
        registry_global("river_xkb_bindings_v1", 1),
        GlobalAction::Bind { interface: Interface::XkbBindings, version: 1 }
    );
    assert_eq!(
        registry_global("river_xkb_bindings_v1", 0),
        GlobalAction::TooOld { interface: Interface::XkbBindings, offered: 0, required: 1 }
    );
    assert_eq!(registry_global("wl_compositor", 6), GlobalAction::Ignore);
    assert_eq!(registry_global("river_window_manager_v", 6), GlobalAction::Ignore);
    assert_eq!(registry_global("", 6), GlobalAction::Ignore);
}

#[test]
fn manage_start_spawn_of_empty_command_fails() {
    let (mut wm, mut out) = settled_manager();
    wm.add_xkb_binding(1, 60, Action::Spawn(Vec::new())).unwrap();
    wm.xkb_binding_event(1, 60, BindingEvent::Pressed).unwrap();
    assert_eq!(wm.handle_manage_start(&mut out), Err(WmError::EmptyCommand));
}
