use vstd::prelude::*;

use crate::request::{emit, requests_view, Request, RequestView};
use crate::state::{Edges, Seat, SeatView, Window};
use crate::wm::actions::SeatOp;

verus! {

/// Width and height that a resize from `(start_width, start_height)` proposes
/// after the pointer travelled `(dx, dy)`: a dragged left edge takes `dx` off
/// the width, a dragged right edge adds it, and the same for top, bottom and
/// `dy`. The arithmetic wraps on `i32`.
pub open spec fn resized_dimensions(
    start_width: i32,
    start_height: i32,
    edges: Edges,
    dx: i32,
    dy: i32,
) -> (i32, i32) {
    let w1 = if edges.left { start_width.wrapping_sub(dx) } else { start_width };
    let w2 = if edges.right { w1.wrapping_add(dx) } else { w1 };
    let h1 = if edges.top { start_height.wrapping_sub(dy) } else { start_height };
    let h2 = if edges.bottom { h1.wrapping_add(dy) } else { h1 };
    (w2, h2)
}

impl SeatView {
    /// The seat after focusing the topmost window of `windows` (the last one),
    /// or nothing when there is none.
    pub open spec fn after_focus_top(self, windows: Seq<Window>) -> SeatView {
        if windows.len() > 0 {
            SeatView { focused: Some(windows.last().id), ..self }
        } else {
            SeatView { focused: None, ..self }
        }
    }

    pub open spec fn focus_top_requests(self, windows: Seq<Window>) -> Seq<RequestView> {
        if windows.len() > 0 {
            seq![
                RequestView::FocusWindow { seat: self.id, window: windows.last().id },
                RequestView::PlaceTop { window: windows.last().id },
            ]
        } else {
            seq![RequestView::ClearFocus { seat: self.id }]
        }
    }

    /// The seat after it starts moving `window` with the pointer.
    pub open spec fn after_pointer_move(self, window: Window) -> SeatView {
        SeatView {
            interacted: Some(window.id),
            op: SeatOp::Move { window: window.id, start_x: window.x, start_y: window.y },
            op_dx: 0,
            op_dy: 0,
            ..self
        }
    }

    pub open spec fn pointer_move_requests(self) -> Seq<RequestView> {
        seq![RequestView::OpStartPointer { seat: self.id }]
    }

    /// The seat after it starts resizing `window` by `edges` with the pointer.
    pub open spec fn after_pointer_resize(self, window: Window, edges: Edges) -> SeatView {
        SeatView {
            interacted: Some(window.id),
            op: SeatOp::Resize {
                window: window.id,
                start_x: window.x,
                start_y: window.y,
                start_width: window.width,
                start_height: window.height,
                edges,
            },
            op_dx: 0,
            op_dy: 0,
            ..self
        }
    }

    pub open spec fn pointer_resize_requests(self, window: Window) -> Seq<RequestView> {
        seq![
            RequestView::OpStartPointer { seat: self.id },
            RequestView::InformResizeStart { window: window.id },
        ]
    }

    /// The seat after its pointer operation ends.
    pub open spec fn after_op_end(self) -> SeatView {
        SeatView { op: SeatOp::Idle, ..self }
    }

    pub open spec fn op_end_requests(self) -> Seq<RequestView> {
        match self.op {
            SeatOp::Resize { window, .. } => seq![
                RequestView::InformResizeEnd { window },
                RequestView::OpEnd { seat: self.id },
            ],
            _ => seq![RequestView::OpEnd { seat: self.id }],
        }
    }

    /// What the seat's operation asks of the compositor in a manage sequence:
    /// a resize proposes the dimensions that the pointer travel gives.
    pub open spec fn op_manage_requests(self) -> Seq<RequestView> {
        match self.op {
            SeatOp::Resize { window, start_width, start_height, edges, .. } => {
                let dims = resized_dimensions(
                    start_width,
                    start_height,
                    edges,
                    self.op_dx,
                    self.op_dy,
                );
                seq![RequestView::ProposeDimensions { window, width: dims.0, height: dims.1 }]
            },
            _ => seq![],
        }
    }
}

impl Seat {
    /// Gives the keyboard focus to the topmost window (the last of `windows`)
    /// and raises it, or clears the focus when there is no window.
    pub fn focus_top(&mut self, windows: &Vec<Window>, out: &mut Vec<Request>)
        ensures
            final(self)@ == old(self)@.after_focus_top(windows@),
            requests_view(final(out)@) == requests_view(old(out)@) + old(self)@.focus_top_requests(
                windows@,
            ),
    {
        let ghost r0 = requests_view(out@);
        if windows.len() > 0 {
            let w = windows[windows.len() - 1].id;
            emit(out, Request::FocusWindow { seat: self.id, window: w });
            emit(out, Request::PlaceTop { window: w });
            self.focused = Some(w);
        } else {
            emit(out, Request::ClearFocus { seat: self.id });
            self.focused = None;
        }
        assert(requests_view(out@) =~= r0 + old(self)@.focus_top_requests(windows@));
    }

    /// Starts moving `window` with the pointer.
    pub fn pointer_move(&mut self, window: &Window, out: &mut Vec<Request>)
        ensures
            final(self)@ == old(self)@.after_pointer_move(*window),
            requests_view(final(out)@) == requests_view(old(out)@)
                + old(self)@.pointer_move_requests(),
    {
        let ghost r0 = requests_view(out@);
        self.interacted = Some(window.id);
        emit(out, Request::OpStartPointer { seat: self.id });
        self.op = SeatOp::Move { window: window.id, start_x: window.x, start_y: window.y };
        self.op_dx = 0;
        self.op_dy = 0;
        assert(requests_view(out@) =~= r0 + old(self)@.pointer_move_requests());
    }

    /// Starts resizing `window` by `edges` with the pointer.
    pub fn pointer_resize(&mut self, window: &Window, edges: Edges, out: &mut Vec<Request>)
        ensures
            final(self)@ == old(self)@.after_pointer_resize(*window, edges),
            requests_view(final(out)@) == requests_view(old(out)@)
                + old(self)@.pointer_resize_requests(*window),
    {
        let ghost r0 = requests_view(out@);
        self.interacted = Some(window.id);
        emit(out, Request::OpStartPointer { seat: self.id });
        emit(out, Request::InformResizeStart { window: window.id });
        self.op = SeatOp::Resize {
            window: window.id,
            start_x: window.x,
            start_y: window.y,
            start_width: window.width,
            start_height: window.height,
            edges,
        };
        self.op_dx = 0;
        self.op_dy = 0;
        assert(requests_view(out@) =~= r0 + old(self)@.pointer_resize_requests(*window));
    }

    /// Ends the seat's pointer operation.
    pub fn op_end(&mut self, out: &mut Vec<Request>)
        ensures
            final(self)@ == old(self)@.after_op_end(),
            requests_view(final(out)@) == requests_view(old(out)@) + old(self)@.op_end_requests(),
    {
        let ghost r0 = requests_view(out@);
        if let SeatOp::Resize { window, .. } = self.op {
            emit(out, Request::InformResizeEnd { window });
        }
        emit(out, Request::OpEnd { seat: self.id });
        self.op = SeatOp::Idle;
        assert(requests_view(out@) =~= r0 + old(self)@.op_end_requests());
    }

    /// Carries the seat's operation on in a manage sequence: a resize proposes
    /// the dimensions that the pointer travel gives.
    pub fn op_manage(&self, out: &mut Vec<Request>)
        ensures
            requests_view(final(out)@) == requests_view(old(out)@) + self@.op_manage_requests(),
    {
        let ghost r0 = requests_view(out@);
        match self.op {
            SeatOp::Resize { window, start_width, start_height, edges, .. } => {
                let mut width = start_width;
                let mut height = start_height;
                if edges.contains(Edges::left()) {
                    width = width.wrapping_sub(self.op_dx);
                }
                if edges.contains(Edges::right()) {
                    width = width.wrapping_add(self.op_dx);
                }
                if edges.contains(Edges::top()) {
                    height = height.wrapping_sub(self.op_dy);
                }
                if edges.contains(Edges::bottom()) {
                    height = height.wrapping_add(self.op_dy);
                }
                emit(out, Request::ProposeDimensions { window, width, height });
            },
            _ => {},
        }
        assert(requests_view(out@) =~= r0 + self@.op_manage_requests());
    }
}

} // verus!
