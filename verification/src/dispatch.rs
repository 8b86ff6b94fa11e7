use vstd::prelude::*;

use crate::keyed::{find_by_key, first_index, keys};
use crate::request::{requests_view, Request};
use crate::state::{Edges, Output, PointerBinding, Seat, SeatView, Window, XkbBinding};
use crate::wm::actions::Action;
use crate::wm::{
    find_seat, find_window, lemma_seats_view_update, manage_start_outcome, output_index,
    render_start_outcome, seat_index, seats_view, window_index, WindowManager, WmError, WmStep,
    WmView,
};

verus! {

/// An event of a window object.
#[derive(Debug, Clone, Copy, PartialEq, Eq, Structural)]
pub enum WindowEvent {
    Closed,
    Dimensions { width: i32, height: i32 },
    PointerMoveRequested { seat: u32 },
    PointerResizeRequested { seat: u32, edges: Edges },
    /// An event that the window manager does not act upon.
    Other,
}

/// An event of an output object.
#[derive(Debug, Clone, Copy, PartialEq, Eq, Structural)]
pub enum OutputEvent {
    Removed,
    /// An event that the window manager does not act upon.
    Other,
}

/// An event of a seat object.
#[derive(Debug, Clone, Copy, PartialEq, Eq, Structural)]
pub enum SeatEvent {
    Removed,
    PointerEnter { window: u32 },
    PointerLeave,
    WindowInteraction { window: u32 },
    OpDelta { dx: i32, dy: i32 },
    OpRelease,
    /// An event that the window manager does not act upon.
    Other,
}

/// An event of a key or pointer binding object.
#[derive(Debug, Clone, Copy, PartialEq, Eq, Structural)]
pub enum BindingEvent {
    Pressed,
    /// An event that the window manager does not act upon.
    Other,
}

/// The window after one of its events.
pub open spec fn after_window_event(w: Window, e: WindowEvent) -> Window {
    match e {
        WindowEvent::Closed => Window { closed: true, ..w },
        WindowEvent::Dimensions { width, height } => Window { width, height, ..w },
        WindowEvent::PointerMoveRequested { seat } => Window {
            pointer_move_requested: Some(seat),
            ..w
        },
        WindowEvent::PointerResizeRequested { seat, edges } => Window {
            pointer_resize_requested: Some(seat),
            pointer_resize_requested_edges: edges,
            ..w
        },
        WindowEvent::Other => w,
    }
}

/// The seat after one of its events.
pub open spec fn after_seat_event(s: SeatView, e: SeatEvent) -> SeatView {
    match e {
        SeatEvent::Removed => SeatView { removed: true, ..s },
        SeatEvent::PointerEnter { window } => SeatView { hovered: Some(window), ..s },
        SeatEvent::PointerLeave => SeatView { hovered: None, ..s },
        SeatEvent::WindowInteraction { window } => SeatView { interacted: Some(window), ..s },
        SeatEvent::OpDelta { dx, dy } => SeatView { op_dx: dx, op_dy: dy, ..s },
        SeatEvent::OpRelease => SeatView { op_release: true, ..s },
        SeatEvent::Other => s,
    }
}

/// The state after an event of window `id`; events of unknown windows are
/// dropped.
pub open spec fn window_event_outcome(wm: WmView, id: u32, e: WindowEvent) -> WmView {
    match window_index(wm.windows, id) {
        None => wm,
        Some(i) => WmView {
            windows: wm.windows.update(i, after_window_event(wm.windows[i], e)),
            ..wm
        },
    }
}

/// The outcome of an event of output `id`.
pub open spec fn output_event_outcome(wm: WmView, id: u32, e: OutputEvent) -> Result<
    WmView,
    WmError,
> {
    match output_index(wm.outputs, id) {
        None => Err(WmError::OutputNotFound),
        Some(i) => Ok(
            match e {
                OutputEvent::Removed => WmView {
                    outputs: wm.outputs.update(i, Output { removed: true, ..wm.outputs[i] }),
                    ..wm
                },
                OutputEvent::Other => wm,
            },
        ),
    }
}

/// The outcome of an event of seat `id`.
pub open spec fn seat_event_outcome(wm: WmView, id: u32, e: SeatEvent) -> Result<WmView, WmError> {
    match seat_index(wm.seats, id) {
        None => Err(WmError::SeatNotFound),
        Some(i) => Ok(
            WmView { seats: wm.seats.update(i, after_seat_event(wm.seats[i], e)), ..wm },
        ),
    }
}

/// The first position of a key binding with id `id` in `bs`, if any.
pub open spec fn xkb_binding_index(bs: Seq<XkbBinding>, id: u32) -> Option<int> {
    first_index(keys(bs), id)
}

/// The first position of a pointer binding with id `id` in `bs`, if any.
pub open spec fn pointer_binding_index(bs: Seq<PointerBinding>, id: u32) -> Option<int> {
    first_index(keys(bs), id)
}

/// The outcome of an event of key binding `binding` of seat `seat`: a press
/// makes the binding's action the seat's pending action.
pub open spec fn xkb_binding_event_outcome(
    wm: WmView,
    seat: u32,
    binding: u32,
    e: BindingEvent,
) -> Result<WmView, WmError> {
    match seat_index(wm.seats, seat) {
        None => Err(WmError::SeatNotFound),
        Some(i) => match xkb_binding_index(wm.seats[i].xkb_bindings, binding) {
            None => Err(WmError::XkbBindingNotFound),
            Some(k) => Ok(
                match e {
                    BindingEvent::Pressed => WmView {
                        seats: wm.seats.update(
                            i,
                            SeatView {
                                pending_action: wm.seats[i].xkb_bindings[k].action@,
                                ..wm.seats[i]
                            },
                        ),
                        ..wm
                    },
                    BindingEvent::Other => wm,
                },
            ),
        },
    }
}

/// The outcome of an event of pointer binding `binding` of seat `seat`: a
/// press makes the binding's action the seat's pending action.
pub open spec fn pointer_binding_event_outcome(
    wm: WmView,
    seat: u32,
    binding: u32,
    e: BindingEvent,
) -> Result<WmView, WmError> {
    match seat_index(wm.seats, seat) {
        None => Err(WmError::SeatNotFound),
        Some(i) => match pointer_binding_index(wm.seats[i].pointer_bindings, binding) {
            None => Err(WmError::PointerBindingNotFound),
            Some(k) => Ok(
                match e {
                    BindingEvent::Pressed => WmView {
                        seats: wm.seats.update(
                            i,
                            SeatView {
                                pending_action: wm.seats[i].pointer_bindings[k].action@,
                                ..wm.seats[i]
                            },
                        ),
                        ..wm
                    },
                    BindingEvent::Other => wm,
                },
            ),
        },
    }
}

impl WindowManager {
    /// Handles an event of window `id`; events of unknown windows are dropped.
    pub fn window_event(&mut self, id: u32, e: WindowEvent)
        ensures
            final(self)@ == window_event_outcome(old(self)@, id, e),
    {
        if let Some(i) = find_window(&self.windows, id) {
            let w = self.windows[i];
            let nw = match e {
                WindowEvent::Closed => Window { closed: true, ..w },
                WindowEvent::Dimensions { width, height } => Window { width, height, ..w },
                WindowEvent::PointerMoveRequested { seat } => Window {
                    pointer_move_requested: Some(seat),
                    ..w
                },
                WindowEvent::PointerResizeRequested { seat, edges } => Window {
                    pointer_resize_requested: Some(seat),
                    pointer_resize_requested_edges: edges,
                    ..w
                },
                WindowEvent::Other => w,
            };
            self.windows.set(i, nw);
        }
        assert(self@ =~= window_event_outcome(old(self)@, id, e));
    }

    /// Handles an event of output `id`.
    pub fn output_event(&mut self, id: u32, e: OutputEvent) -> (r: Result<(), WmError>)
        ensures
            match output_event_outcome(old(self)@, id, e) {
                Ok(wm) => r is Ok && final(self)@ == wm,
                Err(err) => r == Err::<(), WmError>(err),
            },
    {
        match find_by_key(&self.outputs, id) {
            None => Err(WmError::OutputNotFound),
            Some(i) => {
                if let OutputEvent::Removed = e {
                    let o = self.outputs[i];
                    self.outputs.set(i, Output { removed: true, ..o });
                }
                assert(self@ =~= output_event_outcome(old(self)@, id, e)->Ok_0);
                Ok(())
            },
        }
    }

    /// Handles an event of seat `id`.
    pub fn seat_event(&mut self, id: u32, e: SeatEvent) -> (r: Result<(), WmError>)
        ensures
            match seat_event_outcome(old(self)@, id, e) {
                Ok(wm) => r is Ok && final(self)@ == wm,
                Err(err) => r == Err::<(), WmError>(err),
            },
    {
        match find_seat(&self.seats, id) {
            None => Err(WmError::SeatNotFound),
            Some(i) => {
                match e {
                    SeatEvent::Removed => {
                        self.seats[i].removed = true;
                    },
                    SeatEvent::PointerEnter { window } => {
                        self.seats[i].hovered = Some(window);
                    },
                    SeatEvent::PointerLeave => {
                        self.seats[i].hovered = None;
                    },
                    SeatEvent::WindowInteraction { window } => {
                        self.seats[i].interacted = Some(window);
                    },
                    SeatEvent::OpDelta { dx, dy } => {
                        self.seats[i].op_dx = dx;
                        self.seats[i].op_dy = dy;
                    },
                    SeatEvent::OpRelease => {
                        self.seats[i].op_release = true;
                    },
                    SeatEvent::Other => {},
                }
                let ghost target = seat_event_outcome(old(self)@, id, e)->Ok_0;
                proof {
                    lemma_seats_view_update(self.seats@, i as int, target.seats);
                }
                assert(self@ =~= target);
                Ok(())
            },
        }
    }

    /// Handles an event of key binding `binding` of seat `seat`.
    pub fn xkb_binding_event(&mut self, seat: u32, binding: u32, e: BindingEvent) -> (r: Result<
        (),
        WmError,
    >)
        ensures
            match xkb_binding_event_outcome(old(self)@, seat, binding, e) {
                Ok(wm) => r is Ok && final(self)@ == wm,
                Err(err) => r == Err::<(), WmError>(err),
            },
    {
        match find_seat(&self.seats, seat) {
            None => Err(WmError::SeatNotFound),
            Some(i) => match find_by_key(&self.seats[i].xkb_bindings, binding) {
                None => Err(WmError::XkbBindingNotFound),
                Some(k) => {
                    if let BindingEvent::Pressed = e {
                        let action = self.seats[i].xkb_bindings[k].action.duplicate();
                        self.seats[i].pending_action = action;
                    }
                    let ghost target = xkb_binding_event_outcome(old(self)@, seat, binding, e)->Ok_0;
                    proof {
                        lemma_seats_view_update(self.seats@, i as int, target.seats);
                    }
                    assert(self@ =~= target);
                    Ok(())
                },
            },
        }
    }

    /// Handles an event of pointer binding `binding` of seat `seat`.
    pub fn pointer_binding_event(&mut self, seat: u32, binding: u32, e: BindingEvent) -> (r:
        Result<(), WmError>)
        ensures
            match pointer_binding_event_outcome(old(self)@, seat, binding, e) {
                Ok(wm) => r is Ok && final(self)@ == wm,
                Err(err) => r == Err::<(), WmError>(err),
            },
    {
        match find_seat(&self.seats, seat) {
            None => Err(WmError::SeatNotFound),
            Some(i) => match find_by_key(&self.seats[i].pointer_bindings, binding) {
                None => Err(WmError::PointerBindingNotFound),
                Some(k) => {
                    if let BindingEvent::Pressed = e {
                        let action = self.seats[i].pointer_bindings[k].action.duplicate();
                        self.seats[i].pending_action = action;
                    }
                    let ghost target = pointer_binding_event_outcome(
                        old(self)@,
                        seat,
                        binding,
                        e,
                    )->Ok_0;
                    proof {
                        lemma_seats_view_update(self.seats@, i as int, target.seats);
                    }
                    assert(self@ =~= target);
                    Ok(())
                },
            },
        }
    }
}

/// The outputs after output `id` was announced: it replaces an output with
/// the same id, or comes last.
pub open spec fn with_output(outputs: Seq<Output>, id: u32) -> Seq<Output> {
    match output_index(outputs, id) {
        Some(i) => outputs.update(i, Output { id, removed: false }),
        None => outputs.push(Output { id, removed: false }),
    }
}

/// The seats after seat `id` was announced: a fresh seat replaces a seat with
/// the same id, or comes last.
pub open spec fn with_seat(seats: Seq<SeatView>, id: u32) -> Seq<SeatView> {
    match seat_index(seats, id) {
        Some(i) => seats.update(i, SeatView::fresh(id)),
        None => seats.push(SeatView::fresh(id)),
    }
}

/// The key bindings after binding `id` that runs `action` was created: it
/// replaces a binding with the same id, or comes last.
pub open spec fn with_xkb_binding(bs: Seq<XkbBinding>, b: XkbBinding) -> Seq<XkbBinding> {
    match xkb_binding_index(bs, b.id) {
        Some(i) => bs.update(i, b),
        None => bs.push(b),
    }
}

/// The pointer bindings after binding `b` was created: it replaces a binding
/// with the same id, or comes last.
pub open spec fn with_pointer_binding(bs: Seq<PointerBinding>, b: PointerBinding) -> Seq<
    PointerBinding,
> {
    match pointer_binding_index(bs, b.id) {
        Some(i) => bs.update(i, b),
        None => bs.push(b),
    }
}

/// The outcome of recording key binding `b` of seat `seat`.
pub open spec fn add_xkb_binding_outcome(wm: WmView, seat: u32, b: XkbBinding) -> Result<
    WmView,
    WmError,
> {
    match seat_index(wm.seats, seat) {
        None => Err(WmError::SeatNotFound),
        Some(i) => Ok(
            WmView {
                seats: wm.seats.update(
                    i,
                    SeatView {
                        xkb_bindings: with_xkb_binding(wm.seats[i].xkb_bindings, b),
                        ..wm.seats[i]
                    },
                ),
                ..wm
            },
        ),
    }
}

/// The outcome of recording pointer binding `b` of seat `seat`.
pub open spec fn add_pointer_binding_outcome(wm: WmView, seat: u32, b: PointerBinding) -> Result<
    WmView,
    WmError,
> {
    match seat_index(wm.seats, seat) {
        None => Err(WmError::SeatNotFound),
        Some(i) => Ok(
            WmView {
                seats: wm.seats.update(
                    i,
                    SeatView {
                        pointer_bindings: with_pointer_binding(wm.seats[i].pointer_bindings, b),
                        ..wm.seats[i]
                    },
                ),
                ..wm
            },
        ),
    }
}

impl WindowManager {
    /// Records a newly announced window, at `(0, 0)` with no size yet, on top.
    pub fn add_window(&mut self, id: u32)
        ensures
            final(self)@ == (WmView {
                windows: old(self)@.windows.push(Window::spec_new(id, 0, 0)),
                ..old(self)@
            }),
    {
        self.windows.push(Window::new(id, (0, 0)));
        assert(self@ =~= (WmView {
            windows: old(self)@.windows.push(Window::spec_new(id, 0, 0)),
            ..old(self)@
        }));
    }

    /// Records a newly announced output.
    pub fn add_output(&mut self, id: u32)
        ensures
            final(self)@ == (WmView { outputs: with_output(old(self)@.outputs, id), ..old(self)@ }),
    {
        match find_by_key(&self.outputs, id) {
            Some(i) => {
                self.outputs.set(i, Output::new(id));
            },
            None => {
                self.outputs.push(Output::new(id));
            },
        }
        assert(self@ =~= (WmView { outputs: with_output(old(self)@.outputs, id), ..old(self)@ }));
    }

    /// Records a newly announced seat.
    pub fn add_seat(&mut self, id: u32)
        ensures
            final(self)@ == (WmView { seats: with_seat(old(self)@.seats, id), ..old(self)@ }),
    {
        match find_seat(&self.seats, id) {
            Some(i) => {
                self.seats.set(i, Seat::new(id));
                assert(seats_view(self.seats@) =~= with_seat(old(self)@.seats, id));
            },
            None => {
                self.seats.push(Seat::new(id));
                assert(seats_view(self.seats@) =~= with_seat(old(self)@.seats, id));
            },
        }
        assert(self@ =~= (WmView { seats: with_seat(old(self)@.seats, id), ..old(self)@ }));
    }

    /// Records key binding `binding` of seat `seat`, created on request, that
    /// runs `action`.
    pub fn add_xkb_binding(&mut self, seat: u32, binding: u32, action: Action) -> (r: Result<
        (),
        WmError,
    >)
        ensures
            match add_xkb_binding_outcome(
                old(self)@,
                seat,
                XkbBinding { id: binding, action },
            ) {
                Ok(wm) => r is Ok && final(self)@ == wm,
                Err(err) => r == Err::<(), WmError>(err),
            },
    {
        match find_seat(&self.seats, seat) {
            None => Err(WmError::SeatNotFound),
            Some(i) => {
                let b = XkbBinding { id: binding, action };
                let ghost gb = b;
                match find_by_key(&self.seats[i].xkb_bindings, binding) {
                    Some(k) => {
                        self.seats[i].xkb_bindings.set(k, b);
                    },
                    None => {
                        self.seats[i].xkb_bindings.push(b);
                    },
                }
                let ghost target = add_xkb_binding_outcome(old(self)@, seat, gb)->Ok_0;
                proof {
                    lemma_seats_view_update(self.seats@, i as int, target.seats);
                }
                assert(self@ =~= target);
                Ok(())
            },
        }
    }

    /// Records pointer binding `binding` of seat `seat`, created on request,
    /// that runs `action`.
    pub fn add_pointer_binding(&mut self, seat: u32, binding: u32, action: Action) -> (r: Result<
        (),
        WmError,
    >)
        ensures
            match add_pointer_binding_outcome(
                old(self)@,
                seat,
                PointerBinding { id: binding, action },
            ) {
                Ok(wm) => r is Ok && final(self)@ == wm,
                Err(err) => r == Err::<(), WmError>(err),
            },
    {
        match find_seat(&self.seats, seat) {
            None => Err(WmError::SeatNotFound),
            Some(i) => {
                let b = PointerBinding { id: binding, action };
                let ghost gb = b;
                match find_by_key(&self.seats[i].pointer_bindings, binding) {
                    Some(k) => {
                        self.seats[i].pointer_bindings.set(k, b);
                    },
                    None => {
                        self.seats[i].pointer_bindings.push(b);
                    },
                }
                let ghost target = add_pointer_binding_outcome(old(self)@, seat, gb)->Ok_0;
                proof {
                    lemma_seats_view_update(self.seats@, i as int, target.seats);
                }
                assert(self@ =~= target);
                Ok(())
            },
        }
    }
}

/// An event of the window manager object.
#[derive(Debug, Clone, Copy, PartialEq, Eq, Structural)]
pub enum ManagerEvent {
    /// Another window manager is running.
    Unavailable,
    /// The compositor is done with this window manager.
    Finished,
    ManageStart,
    RenderStart,
    SessionLocked,
    SessionUnlocked,
    /// A new window object.
    Window { id: u32 },
    /// A new output object.
    Output { id: u32 },
    /// A new seat object.
    Seat { id: u32 },
}

/// Whether the window manager goes on after an event.
#[derive(Debug, Clone, Copy, PartialEq, Eq, Structural)]
pub enum Flow {
    Continue,
    /// The process ends with the given exit status.
    Exit { code: i32 },
}

/// The outcome of an event of the window manager object; `xkb_bound` tells
/// whether the key bindings global was bound.
pub open spec fn manager_event_outcome(wm: WmView, e: ManagerEvent, xkb_bound: bool) -> Result<
    (WmStep, Flow),
    WmError,
> {
    let same = WmStep { wm, requests: seq![] };
    match e {
        ManagerEvent::Unavailable => Ok((same, Flow::Exit { code: 1 })),
        ManagerEvent::Finished => Ok((same, Flow::Exit { code: 0 })),
        ManagerEvent::ManageStart => if !xkb_bound {
            Err(WmError::XkbBindingsMissing)
        } else {
            match manage_start_outcome(wm) {
                Err(err) => Err(err),
                Ok(step) => Ok((step, Flow::Continue)),
            }
        },
        ManagerEvent::RenderStart => Ok((render_start_outcome(wm), Flow::Continue)),
        ManagerEvent::SessionLocked | ManagerEvent::SessionUnlocked => Ok((same, Flow::Continue)),
        ManagerEvent::Window { id } => Ok(
            (
                WmStep {
                    wm: WmView { windows: wm.windows.push(Window::spec_new(id, 0, 0)), ..wm },
                    requests: seq![],
                },
                Flow::Continue,
            ),
        ),
        ManagerEvent::Output { id } => Ok(
            (
                WmStep { wm: WmView { outputs: with_output(wm.outputs, id), ..wm }, requests: seq![] },
                Flow::Continue,
            ),
        ),
        ManagerEvent::Seat { id } => Ok(
            (
                WmStep { wm: WmView { seats: with_seat(wm.seats, id), ..wm }, requests: seq![] },
                Flow::Continue,
            ),
        ),
    }
}

impl WindowManager {
    /// Handles an event of the window manager object; `xkb_bound` tells
    /// whether the key bindings global was bound.
    pub fn manager_event(&mut self, e: ManagerEvent, xkb_bound: bool, out: &mut Vec<Request>) -> (r:
        Result<Flow, WmError>)
        ensures
            match manager_event_outcome(old(self)@, e, xkb_bound) {
                Ok((step, flow)) => {
                    &&& r == Ok::<Flow, WmError>(flow)
                    &&& final(self)@ == step.wm
                    &&& requests_view(final(out)@) == requests_view(old(out)@) + step.requests
                },
                Err(err) => r == Err::<Flow, WmError>(err),
            },
    {
        let ghost r0 = requests_view(out@);
        assert(r0 + seq![] =~= r0);
        match e {
            ManagerEvent::Unavailable => Ok(Flow::Exit { code: 1 }),
            ManagerEvent::Finished => Ok(Flow::Exit { code: 0 }),
            ManagerEvent::ManageStart => {
                if !xkb_bound {
                    return Err(WmError::XkbBindingsMissing);
                }
                match self.handle_manage_start(out) {
                    Err(err) => Err(err),
                    Ok(()) => Ok(Flow::Continue),
                }
            },
            ManagerEvent::RenderStart => {
                self.handle_render_start(out);
                Ok(Flow::Continue)
            },
            ManagerEvent::SessionLocked => Ok(Flow::Continue),
            ManagerEvent::SessionUnlocked => Ok(Flow::Continue),
            ManagerEvent::Window { id } => {
                self.add_window(id);
                Ok(Flow::Continue)
            },
            ManagerEvent::Output { id } => {
                self.add_output(id);
                Ok(Flow::Continue)
            },
            ManagerEvent::Seat { id } => {
                self.add_seat(id);
                Ok(Flow::Continue)
            },
        }
    }
}

/// A global interface that the window manager binds.
#[derive(Debug, Clone, Copy, PartialEq, Eq, Structural)]
pub enum Interface {
    /// `river_window_manager_v1`
    WindowManager,
    /// `river_xkb_bindings_v1`
    XkbBindings,
}

/// What the window manager does with an announced global.
#[derive(Debug, Clone, Copy, PartialEq, Eq, Structural)]
pub enum GlobalAction {
    /// Bind the global at the given version.
    Bind { interface: Interface, version: u32 },
    /// The compositor offers an older version than the one required: the
    /// window manager cannot run.
    TooOld { interface: Interface, offered: u32, required: u32 },
    /// The global is of no use to the window manager.
    Ignore,
}

/// The version of `river_window_manager_v1` that the window manager needs.
pub const RIVER_WINDOW_MANAGER_V1_VERSION: u32 = 4;

/// The version of `river_xkb_bindings_v1` that the window manager needs.
pub const RIVER_XKB_BINDINGS_V1_VERSION: u32 = 1;

/// What the window manager does with global `interface` offered at `version`.
pub open spec fn global_action(interface: Seq<char>, version: u32) -> GlobalAction {
    if interface == "river_window_manager_v1"@ {
        if version < RIVER_WINDOW_MANAGER_V1_VERSION {
            GlobalAction::TooOld {
                interface: Interface::WindowManager,
                offered: version,
                required: RIVER_WINDOW_MANAGER_V1_VERSION,
            }
        } else {
            GlobalAction::Bind {
                interface: Interface::WindowManager,
                version: RIVER_WINDOW_MANAGER_V1_VERSION,
            }
        }
    } else if interface == "river_xkb_bindings_v1"@ {
        if version < RIVER_XKB_BINDINGS_V1_VERSION {
            GlobalAction::TooOld {
                interface: Interface::XkbBindings,
                offered: version,
                required: RIVER_XKB_BINDINGS_V1_VERSION,
            }
        } else {
            GlobalAction::Bind {
                interface: Interface::XkbBindings,
                version: RIVER_XKB_BINDINGS_V1_VERSION,
            }
        }
    } else {
        GlobalAction::Ignore
    }
}

/// Whether two strings hold the same characters.
pub fn same_text(a: &str, b: &str) -> (r: bool)
    ensures
        r == (a@ == b@),
{
    let n = a.unicode_len();
    if n != b.unicode_len() {
        return false;
    }
    let mut i: usize = 0;
    while i < n
        invariant
            n == a@.len(),
            n == b@.len(),
            i <= n,
            forall|j: int| 0 <= j < i ==> a@[j] == b@[j],
        decreases n - i,
    {
        if a.get_char(i) != b.get_char(i) {
            return false;
        }
        i += 1;
    }
    assert(a@ =~= b@);
    true
}

/// Decides what to do with global `interface` offered at `version`.
pub fn registry_global(interface: &str, version: u32) -> (g: GlobalAction)
    ensures
        g == global_action(interface@, version),
{
    if same_text(interface, "river_window_manager_v1") {
        if version < RIVER_WINDOW_MANAGER_V1_VERSION {
            GlobalAction::TooOld {
                interface: Interface::WindowManager,
                offered: version,
                required: RIVER_WINDOW_MANAGER_V1_VERSION,
            }
        } else {
            GlobalAction::Bind {
                interface: Interface::WindowManager,
                version: RIVER_WINDOW_MANAGER_V1_VERSION,
            }
        }
    } else if same_text(interface, "river_xkb_bindings_v1") {
        if version < RIVER_XKB_BINDINGS_V1_VERSION {
            GlobalAction::TooOld {
                interface: Interface::XkbBindings,
                offered: version,
                required: RIVER_XKB_BINDINGS_V1_VERSION,
            }
        } else {
            GlobalAction::Bind {
                interface: Interface::XkbBindings,
                version: RIVER_XKB_BINDINGS_V1_VERSION,
            }
        }
    } else {
        GlobalAction::Ignore
    }
}

} // verus!
