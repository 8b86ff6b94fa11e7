use vstd::prelude::*;

use crate::keyed::Keyed;
use crate::request::{emit, requests_view, Request, RequestView};
use crate::wm::actions::{Action, ActionView, SeatOp};

verus! {

/// A set of window edges, as used by interactive resizes.
#[derive(Debug, Clone, Copy, PartialEq, Eq, Structural)]
pub struct Edges {
    pub top: bool,
    pub bottom: bool,
    pub left: bool,
    pub right: bool,
}

impl Edges {
    /// No edge at all.
    pub fn none() -> (e: Edges)
        ensures
            !e.top && !e.bottom && !e.left && !e.right,
    {
        Edges { top: false, bottom: false, left: false, right: false }
    }

    /// The top edge alone.
    pub fn top() -> (e: Edges)
        ensures
            e.top && !e.bottom && !e.left && !e.right,
    {
        Edges { top: true, bottom: false, left: false, right: false }
    }

    /// The bottom edge alone.
    pub fn bottom() -> (e: Edges)
        ensures
            !e.top && e.bottom && !e.left && !e.right,
    {
        Edges { top: false, bottom: true, left: false, right: false }
    }

    /// The left edge alone.
    pub fn left() -> (e: Edges)
        ensures
            !e.top && !e.bottom && e.left && !e.right,
    {
        Edges { top: false, bottom: false, left: true, right: false }
    }

    /// The right edge alone.
    pub fn right() -> (e: Edges)
        ensures
            !e.top && !e.bottom && !e.left && e.right,
    {
        Edges { top: false, bottom: false, left: false, right: true }
    }

    /// The edges that are in either set.
    pub fn union(self, other: Edges) -> (e: Edges)
        ensures
            e.top == (self.top || other.top),
            e.bottom == (self.bottom || other.bottom),
            e.left == (self.left || other.left),
            e.right == (self.right || other.right),
    {
        Edges {
            top: self.top || other.top,
            bottom: self.bottom || other.bottom,
            left: self.left || other.left,
            right: self.right || other.right,
        }
    }

    /// Whether every edge of `other` is in `self`.
    pub fn contains(self, other: Edges) -> (b: bool)
        ensures
            b == ((other.top ==> self.top) && (other.bottom ==> self.bottom) && (other.left
                ==> self.left) && (other.right ==> self.right)),
    {
        (!other.top || self.top) && (!other.bottom || self.bottom) && (!other.left || self.left)
            && (!other.right || self.right)
    }

    /// The bottom and the right edges: the corner an interactive resize drags.
    pub open spec fn bottom_right() -> Edges {
        Edges { top: false, bottom: true, left: false, right: true }
    }
}

/// A window as the window manager tracks it.
#[derive(Debug, Clone, Copy, PartialEq, Eq, Structural)]
pub struct Window {
    /// Protocol id of the window object (its node is named by it too).
    pub id: u32,
    /// Not yet placed and sized by a manage sequence.
    pub new: bool,
    /// The compositor announced that the window is closed.
    pub closed: bool,
    pub x: i32,
    pub y: i32,
    pub width: i32,
    pub height: i32,
    /// The window asked the given seat to move it with the pointer.
    pub pointer_move_requested: Option<u32>,
    /// The window asked the given seat to resize it with the pointer.
    pub pointer_resize_requested: Option<u32>,
    /// The edges of the last requested pointer resize.
    pub pointer_resize_requested_edges: Edges,
}

impl Window {
    /// A freshly announced window at the given position, with no size yet.
    pub fn new(id: u32, pos: (i32, i32)) -> (w: Window)
        ensures
            w == Window::spec_new(id, pos.0, pos.1),
    {
        Window {
            id,
            new: true,
            closed: false,
            x: pos.0,
            y: pos.1,
            width: 0,
            height: 0,
            pointer_move_requested: None,
            pointer_resize_requested: None,
            pointer_resize_requested_edges: Edges { top: false, bottom: false, left: false, right: false },
        }
    }

    pub open spec fn spec_new(id: u32, x: i32, y: i32) -> Window {
        Window {
            id,
            new: true,
            closed: false,
            x,
            y,
            width: 0,
            height: 0,
            pointer_move_requested: None,
            pointer_resize_requested: None,
            pointer_resize_requested_edges: Edges { top: false, bottom: false, left: false, right: false },
        }
    }

    /// Moves the window: its node goes to `(x, y)`.
    pub fn set_position(&mut self, x: i32, y: i32, out: &mut Vec<Request>)
        ensures
            *final(self) == (Window { x, y, ..*old(self) }),
            requests_view(final(out)@) == requests_view(old(out)@).push(
                RequestView::SetPosition { window: old(self).id, x, y },
            ),
    {
        emit(out, Request::SetPosition { window: self.id, x, y });
        self.x = x;
        self.y = y;
    }
}

/// A wayland output as the window manager tracks it.
#[derive(Debug, Clone, Copy, PartialEq, Eq, Structural)]
pub struct Output {
    /// Protocol id of the output object.
    pub id: u32,
    /// The compositor announced that the output is gone.
    pub removed: bool,
}

impl Output {
    /// A freshly announced output.
    pub fn new(id: u32) -> (output: Output)
        ensures
            output == (Output { id, removed: false }),
    {
        Output { id, removed: false }
    }
}

/// A key binding of a seat and the action it runs.
#[derive(Debug)]
pub struct XkbBinding {
    /// Protocol id of the binding object.
    pub id: u32,
    pub action: Action,
}

/// A pointer button binding of a seat and the action it runs.
#[derive(Debug)]
pub struct PointerBinding {
    /// Protocol id of the binding object.
    pub id: u32,
    pub action: Action,
}

/// A seat (a keyboard and a pointer) as the window manager tracks it.
#[derive(Debug)]
pub struct Seat {
    /// Protocol id of the seat object.
    pub id: u32,
    /// Its bindings are not created yet.
    pub new: bool,
    /// The compositor announced that the seat is gone.
    pub removed: bool,
    /// The window that has the seat's keyboard focus.
    pub focused: Option<u32>,
    /// The window under the seat's pointer.
    pub hovered: Option<u32>,
    /// The window that the seat last interacted with, not yet raised.
    pub interacted: Option<u32>,
    pub xkb_bindings: Vec<XkbBinding>,
    pub pointer_bindings: Vec<PointerBinding>,
    /// The action of the binding pressed last, not yet carried out.
    pub pending_action: Action,
    /// The pointer operation in progress.
    pub op: SeatOp,
    /// Pointer travel since the operation started.
    pub op_dx: i32,
    pub op_dy: i32,
    /// The pointer button of the operation was released.
    pub op_release: bool,
}

/// The mathematical value of a [`Seat`].
#[verifier::ext_equal]
pub struct SeatView {
    pub id: u32,
    pub new: bool,
    pub removed: bool,
    pub focused: Option<u32>,
    pub hovered: Option<u32>,
    pub interacted: Option<u32>,
    pub xkb_bindings: Seq<XkbBinding>,
    pub pointer_bindings: Seq<PointerBinding>,
    pub pending_action: ActionView,
    pub op: SeatOp,
    pub op_dx: i32,
    pub op_dy: i32,
    pub op_release: bool,
}

impl View for Seat {
    type V = SeatView;

    open spec fn view(&self) -> SeatView {
        SeatView {
            id: self.id,
            new: self.new,
            removed: self.removed,
            focused: self.focused,
            hovered: self.hovered,
            interacted: self.interacted,
            xkb_bindings: self.xkb_bindings@,
            pointer_bindings: self.pointer_bindings@,
            pending_action: self.pending_action@,
            op: self.op,
            op_dx: self.op_dx,
            op_dy: self.op_dy,
            op_release: self.op_release,
        }
    }
}

impl SeatView {
    /// The value of a freshly announced seat.
    pub open spec fn fresh(id: u32) -> SeatView {
        SeatView {
            id,
            new: true,
            removed: false,
            focused: None,
            hovered: None,
            interacted: None,
            xkb_bindings: Seq::empty(),
            pointer_bindings: Seq::empty(),
            pending_action: ActionView::Nothing,
            op: SeatOp::Idle,
            op_dx: 0,
            op_dy: 0,
            op_release: false,
        }
    }
}

impl Seat {
    /// A freshly announced seat.
    pub fn new(id: u32) -> (seat: Seat)
        ensures
            seat@ == SeatView::fresh(id),
    {
        Seat {
            id,
            new: true,
            removed: false,
            focused: None,
            hovered: None,
            interacted: None,
            xkb_bindings: Vec::new(),
            pointer_bindings: Vec::new(),
            pending_action: Action::Nothing,
            op: SeatOp::Idle,
            op_dx: 0,
            op_dy: 0,
            op_release: false,
        }
    }
}

impl Keyed for Window {
    open spec fn key(&self) -> u32 {
        self.id
    }

    fn get_key(&self) -> (k: u32) {
        self.id
    }
}

impl Keyed for Output {
    open spec fn key(&self) -> u32 {
        self.id
    }

    fn get_key(&self) -> (k: u32) {
        self.id
    }
}

impl Keyed for XkbBinding {
    open spec fn key(&self) -> u32 {
        self.id
    }

    fn get_key(&self) -> (k: u32) {
        self.id
    }
}

impl Keyed for PointerBinding {
    open spec fn key(&self) -> u32 {
        self.id
    }

    fn get_key(&self) -> (k: u32) {
        self.id
    }
}

impl Keyed for Seat {
    open spec fn key(&self) -> u32 {
        self.id
    }

    fn get_key(&self) -> (k: u32) {
        self.id
    }
}

} // verus!
