use vstd::prelude::*;

use crate::request::{emit, requests_view, Request, RequestView};
use crate::state::{Edges, Seat, SeatView, Window};
use crate::wm::{find_window, window_index, WmError};

verus! {

/// What a key or pointer binding asks the window manager to do.
#[derive(Debug, Clone, PartialEq, Eq)]
pub enum Action {
    /// Nothing to do.
    Nothing,
    /// Start a program: the program's name, then its arguments.
    Spawn(Vec<String>),
    Close,
    FocusRight,
    FocusLeft,
    Move,
    Resize,
    Exit,
    Fullscreen,
}

/// The mathematical value of an [`Action`].
pub enum ActionView {
    Nothing,
    /// The program's name and arguments, each as its characters.
    Spawn(Seq<Seq<char>>),
    Close,
    FocusRight,
    FocusLeft,
    Move,
    Resize,
    Exit,
    Fullscreen,
}

impl View for Action {
    type V = ActionView;

    open spec fn view(&self) -> ActionView {
        match self {
            Action::Nothing => ActionView::Nothing,
            Action::Spawn(cmd) => ActionView::Spawn(cmd.deep_view()),
            Action::Close => ActionView::Close,
            Action::FocusRight => ActionView::FocusRight,
            Action::FocusLeft => ActionView::FocusLeft,
            Action::Move => ActionView::Move,
            Action::Resize => ActionView::Resize,
            Action::Exit => ActionView::Exit,
            Action::Fullscreen => ActionView::Fullscreen,
        }
    }
}

impl Action {
    /// A copy of the action with the same value.
    pub fn duplicate(&self) -> (copy: Action)
        ensures
            copy@ == self@,
    {
        match self {
            Action::Nothing => Action::Nothing,
            Action::Spawn(cmd) => {
                let c = cmd.clone();
                assert(c.deep_view() =~= cmd.deep_view());
                Action::Spawn(c)
            },
            Action::Close => Action::Close,
            Action::FocusRight => Action::FocusRight,
            Action::FocusLeft => Action::FocusLeft,
            Action::Move => Action::Move,
            Action::Resize => Action::Resize,
            Action::Exit => Action::Exit,
            Action::Fullscreen => Action::Fullscreen,
        }
    }
}

/// The pointer operation that a seat is carrying out, if any.
///
/// Windows are named by the protocol id of their window object.
#[derive(Debug, Clone, Copy, PartialEq, Eq, Structural)]
pub enum SeatOp {
    /// No operation in progress.
    Idle,
    Move { window: u32, start_x: i32, start_y: i32 },
    Spawn { window: u32 },
    Resize {
        window: u32,
        start_x: i32,
        start_y: i32,
        start_width: i32,
        start_height: i32,
        edges: Edges,
    },
}


/// The windows after the focus moved right: the first window goes last.
pub open spec fn rotated_left(ws: Seq<Window>) -> Seq<Window> {
    ws.drop_first().push(ws[0])
}

/// The windows after the focus moved left: the last window goes first.
pub open spec fn rotated_right(ws: Seq<Window>) -> Seq<Window> {
    seq![ws.last()] + ws.drop_last()
}

/// What a step of one seat leaves behind: the seat, the windows, and the
/// requests it sent, in order.
pub struct SeatStep {
    pub seat: SeatView,
    pub windows: Seq<Window>,
    pub requests: Seq<RequestView>,
}

impl SeatView {
    /// The seat once its pending action is carried out.
    pub open spec fn action_done(self) -> SeatView {
        SeatView { pending_action: ActionView::Nothing, ..self }
    }

    /// The outcome of carrying out the seat's pending action on `windows`.
    pub open spec fn do_action_outcome(self, windows: Seq<Window>) -> Result<SeatStep, WmError> {
        match self.pending_action {
            ActionView::Nothing | ActionView::Fullscreen => Ok(
                SeatStep { seat: self.action_done(), windows, requests: seq![] },
            ),
            ActionView::Spawn(command) => if command.len() == 0 {
                Err(WmError::EmptyCommand)
            } else {
                Ok(
                    SeatStep {
                        seat: self.action_done(),
                        windows,
                        requests: seq![RequestView::Spawn { command }],
                    },
                )
            },
            ActionView::Close => Ok(
                SeatStep {
                    seat: self.action_done(),
                    windows,
                    requests: match self.focused {
                        Some(w) => seq![RequestView::CloseWindow { window: w }],
                        None => seq![],
                    },
                },
            ),
            ActionView::FocusRight => if windows.len() == 0 {
                Err(WmError::NoWindowToRotate)
            } else {
                let ws = rotated_left(windows);
                Ok(
                    SeatStep {
                        seat: self.after_focus_top(ws).action_done(),
                        windows: ws,
                        requests: self.focus_top_requests(ws),
                    },
                )
            },
            ActionView::FocusLeft => if windows.len() == 0 {
                Err(WmError::NoWindowToRotate)
            } else {
                let ws = rotated_right(windows);
                Ok(
                    SeatStep {
                        seat: self.after_focus_top(ws).action_done(),
                        windows: ws,
                        requests: self.focus_top_requests(ws),
                    },
                )
            },
            ActionView::Move => if self.hovered is Some && self.op is Idle {
                match window_index(windows, self.hovered->0) {
                    None => Err(WmError::HoveredWindowNotFound),
                    Some(i) => Ok(
                        SeatStep {
                            seat: self.after_pointer_move(windows[i]).action_done(),
                            windows,
                            requests: self.pointer_move_requests(),
                        },
                    ),
                }
            } else {
                Ok(SeatStep { seat: self.action_done(), windows, requests: seq![] })
            },
            ActionView::Resize => if self.hovered is Some && self.op is Idle {
                match window_index(windows, self.hovered->0) {
                    None => Err(WmError::HoveredWindowNotFound),
                    Some(i) => Ok(
                        SeatStep {
                            seat: self.after_pointer_resize(
                                windows[i],
                                Edges::bottom_right(),
                            ).action_done(),
                            windows,
                            requests: self.pointer_resize_requests(windows[i]),
                        },
                    ),
                }
            } else {
                Ok(SeatStep { seat: self.action_done(), windows, requests: seq![] })
            },
            ActionView::Exit => Ok(
                SeatStep {
                    seat: self.action_done(),
                    windows,
                    requests: seq![RequestView::ExitSession],
                },
            ),
        }
    }
}

impl Seat {
    /// Carries out the seat's pending action, then forgets it.
    ///
    /// Starting a program needs a command with at least the program's name.
    /// Moving the focus right or left rotates the windows by one and focuses
    /// the new topmost window; moving or resizing starts a pointer operation
    /// on the window under the pointer when no operation is in progress.
    pub fn do_action(&mut self, windows: &mut Vec<Window>, out: &mut Vec<Request>) -> (r: Result<
        (),
        WmError,
    >)
        ensures
            match old(self)@.do_action_outcome(old(windows)@) {
                Ok(step) => {
                    &&& r is Ok
                    &&& final(self)@ == step.seat
                    &&& final(windows)@ == step.windows
                    &&& requests_view(final(out)@) == requests_view(old(out)@) + step.requests
                },
                Err(e) => r == Err::<(), WmError>(e),
            },
    {
        let ghost r0 = requests_view(out@);
        let ghost s0 = self@;
        let ghost w0 = windows@;
        match &self.pending_action {
            Action::Nothing => {},
            Action::Fullscreen => {},
            Action::Spawn(cmd) => {
                if cmd.len() == 0 {
                    return Err(WmError::EmptyCommand);
                }
                let command = cmd.clone();
                assert(command.deep_view() =~= cmd.deep_view());
                emit(out, Request::Spawn { command });
            },
            Action::Close => {
                if let Some(w) = self.focused {
                    emit(out, Request::CloseWindow { window: w });
                }
            },
            Action::FocusRight => {
                if windows.len() == 0 {
                    return Err(WmError::NoWindowToRotate);
                }
                let w = windows.remove(0);
                windows.push(w);
                assert(windows@ =~= rotated_left(w0));
                self.focus_top(windows, out);
            },
            Action::FocusLeft => {
                if windows.len() == 0 {
                    return Err(WmError::NoWindowToRotate);
                }
                let w = windows.pop().unwrap();
                windows.insert(0, w);
                assert(windows@ =~= rotated_right(w0));
                self.focus_top(windows, out);
            },
            Action::Move => {
                if let (Some(h), SeatOp::Idle) = (self.hovered, self.op) {
                    match find_window(windows, h) {
                        None => {
                            return Err(WmError::HoveredWindowNotFound);
                        },
                        Some(i) => {
                            let w = windows[i];
                            self.pointer_move(&w, out);
                        },
                    }
                }
            },
            Action::Resize => {
                if let (Some(h), SeatOp::Idle) = (self.hovered, self.op) {
                    match find_window(windows, h) {
                        None => {
                            return Err(WmError::HoveredWindowNotFound);
                        },
                        Some(i) => {
                            let w = windows[i];
                            self.pointer_resize(&w, Edges::bottom().union(Edges::right()), out);
                        },
                    }
                }
            },
            Action::Exit => {
                emit(out, Request::ExitSession);
            },
        }
        self.pending_action = Action::Nothing;
        assert(requests_view(out@) =~= r0 + s0.do_action_outcome(w0)->Ok_0.requests);
        assert(self@ =~= s0.do_action_outcome(w0)->Ok_0.seat);
        Ok(())
    }
}

} // verus!
