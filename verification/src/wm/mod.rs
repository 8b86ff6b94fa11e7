pub mod actions;
pub mod layout;

use vstd::prelude::*;

use crate::keyed::{find_by_key, first_index, keys, lemma_first_index};
use crate::request::{emit, requests_view, Request, RequestView};
use crate::state::{Edges, Output, PointerBinding, Seat, SeatView, Window, XkbBinding};
use crate::wm::actions::{Action, ActionView, SeatOp};

verus! {

/// A state in which the window manager cannot go on: the compositor named an
/// object that the window manager does not know, or asked for something that
/// cannot be done.
#[derive(Debug, Clone, Copy, PartialEq, Eq, Structural)]
pub enum WmError {
    /// No seat has the given id.
    SeatNotFound,
    /// No output has the given id.
    OutputNotFound,
    /// The seat has no key binding with the given id.
    XkbBindingNotFound,
    /// The seat has no pointer binding with the given id.
    PointerBindingNotFound,
    /// The window under the pointer is not among the windows.
    HoveredWindowNotFound,
    /// The window that a seat interacted with is not among the windows.
    InteractedWindowNotFound,
    /// The focus was asked to move while there is no window.
    NoWindowToRotate,
    /// A manage sequence started before the key bindings global was bound.
    XkbBindingsMissing,
    /// A program was to be started from an empty command.
    EmptyCommand,
}

/// The first position of a window with id `id` in `ws`, if any.
pub open spec fn window_index(ws: Seq<Window>, id: u32) -> Option<int> {
    first_index(keys(ws), id)
}

/// The ids of the seats, in order.
pub open spec fn seat_ids(seats: Seq<SeatView>) -> Seq<u32> {
    seats.map_values(|s: SeatView| s.id)
}

/// The first position of a seat with id `id` in `seats`, if any.
pub open spec fn seat_index(seats: Seq<SeatView>, id: u32) -> Option<int> {
    first_index(seat_ids(seats), id)
}

impl WmView {
    /// No id occurs twice among the outputs, among the seats, or among the key
    /// bindings or the pointer bindings of any seat: the objects of each kind
    /// form a map keyed by id.
    pub open spec fn ids_unique(self) -> bool {
        &&& keys(self.outputs).no_duplicates()
        &&& seat_ids(self.seats).no_duplicates()
        &&& forall|j: int|
            0 <= j < self.seats.len() ==> keys((#[trigger] self.seats[j]).xkb_bindings).no_duplicates()
                && keys(self.seats[j].pointer_bindings).no_duplicates()
    }
}

/// The first position of an output with id `id` in `outputs`, if any.
pub open spec fn output_index(outputs: Seq<Output>, id: u32) -> Option<int> {
    first_index(keys(outputs), id)
}

/// Finds the first window with id `id`.
pub fn find_window(ws: &Vec<Window>, id: u32) -> (r: Option<usize>)
    ensures
        r matches Some(i) ==> window_index(ws@, id) == Some(i as int),
        r is None ==> window_index(ws@, id) is None,
        r is None ==> forall|j: int| 0 <= j < ws@.len() ==> ws@[j].id != id,
{
    let r = find_by_key(ws, id);
    proof {
        lemma_first_index(keys(ws@), id);
        if r is None {
            assert forall|j: int| 0 <= j < ws@.len() implies ws@[j].id != id by {
                assert(keys(ws@)[j] == ws@[j].id);
            }
        }
    }
    r
}

/// The window manager's state: the windows from bottom to top, the outputs and
/// the seats, each in the order the compositor announced them.
#[derive(Debug)]
pub struct WindowManager {
    pub windows: Vec<Window>,
    pub outputs: Vec<Output>,
    pub seats: Vec<Seat>,
}

/// The mathematical value of a [`WindowManager`].
#[verifier::ext_equal]
pub struct WmView {
    pub windows: Seq<Window>,
    pub outputs: Seq<Output>,
    pub seats: Seq<SeatView>,
}

/// The values of a list of seats, in order.
pub open spec fn seats_view(seats: Seq<Seat>) -> Seq<SeatView> {
    seats.map_values(|s: Seat| s@)
}

impl View for WindowManager {
    type V = WmView;

    open spec fn view(&self) -> WmView {
        WmView { windows: self.windows@, outputs: self.outputs@, seats: seats_view(self.seats@) }
    }
}

impl Default for WindowManager {
    /// A window manager that knows no window, output or seat yet.
    fn default() -> (wm: WindowManager)
        ensures
            wm@ == (WmView { windows: seq![], outputs: seq![], seats: seq![] }),
    {
        let wm = WindowManager { windows: Vec::new(), outputs: Vec::new(), seats: Vec::new() };
        assert(wm@ =~= (WmView { windows: seq![], outputs: seq![], seats: seq![] }));
        wm
    }
}

/// What a part of a sequence leaves behind: the state and the requests it
/// sent, in order.
pub struct WmStep {
    pub wm: WmView,
    pub requests: Seq<RequestView>,
}

/// The outputs that are not removed, in order.
pub open spec fn kept_outputs(outputs: Seq<Output>) -> Seq<Output>
    decreases outputs.len(),
{
    if outputs.len() == 0 {
        seq![]
    } else {
        let kept = kept_outputs(outputs.drop_last());
        if outputs.last().removed {
            kept
        } else {
            kept.push(outputs.last())
        }
    }
}

/// One request to destroy each removed output, in order.
pub open spec fn removed_output_requests(outputs: Seq<Output>) -> Seq<RequestView>
    decreases outputs.len(),
{
    if outputs.len() == 0 {
        seq![]
    } else {
        let reqs = removed_output_requests(outputs.drop_last());
        if outputs.last().removed {
            reqs.push(RequestView::DestroyOutput { output: outputs.last().id })
        } else {
            reqs
        }
    }
}

impl WindowManager {
    /// Forgets the removed outputs and destroys their objects.
    fn remove_outputs(&mut self, out: &mut Vec<Request>)
        ensures
            final(self)@ == (WmView { outputs: kept_outputs(old(self)@.outputs), ..old(self)@ }),
            requests_view(final(out)@) == requests_view(old(out)@) + removed_output_requests(
                old(self)@.outputs,
            ),
    {
        let ghost r0 = requests_view(out@);
        let ghost o0 = self.outputs@;
        let mut kept: Vec<Output> = Vec::new();
        let mut i: usize = 0;
        while i < self.outputs.len()
            invariant
                self@ == old(self)@,
                self.outputs@ == o0,
                i <= o0.len(),
                kept@ == kept_outputs(o0.take(i as int)),
                requests_view(out@) == r0 + removed_output_requests(o0.take(i as int)),
            decreases o0.len() - i,
        {
            let o = self.outputs[i];
            assert(o0.take(i + 1).drop_last() =~= o0.take(i as int));
            if o.removed {
                emit(out, Request::DestroyOutput { output: o.id });
            } else {
                kept.push(o);
            }
            assert(requests_view(out@) =~= r0 + removed_output_requests(o0.take(i + 1)));
            i += 1;
        }
        assert(o0.take(o0.len() as int) =~= o0);
        self.outputs = kept;
        assert(self@ =~= (WmView { outputs: kept_outputs(old(self)@.outputs), ..old(self)@ }));
    }
}


/// The operation moves or resizes window `window`.
pub open spec fn op_on_window(op: SeatOp, window: u32) -> bool {
    match op {
        SeatOp::Move { window: w, .. } => w == window,
        SeatOp::Resize { window: w, .. } => w == window,
        _ => false,
    }
}

/// Whether the operation moves or resizes window `window`.
pub fn is_op_on_window(op: SeatOp, window: u32) -> (b: bool)
    ensures
        b == op_on_window(op, window),
{
    match op {
        SeatOp::Move { window: w, .. } => w == window,
        SeatOp::Resize { window: w, .. } => w == window,
        _ => false,
    }
}

/// The seat after the end of its operation if that operation is on `window`.
pub open spec fn end_op_on(s: SeatView, window: u32) -> SeatView {
    if op_on_window(s.op, window) {
        s.after_op_end()
    } else {
        s
    }
}

/// The seats after every operation on `window` ended.
pub open spec fn end_ops_on(seats: Seq<SeatView>, window: u32) -> Seq<SeatView> {
    seats.map_values(|s: SeatView| end_op_on(s, window))
}

/// The requests that end every operation on `window`, seat by seat.
pub open spec fn end_ops_requests(seats: Seq<SeatView>, window: u32) -> Seq<RequestView>
    decreases seats.len(),
{
    if seats.len() == 0 {
        seq![]
    } else {
        end_ops_requests(seats.drop_last(), window) + if op_on_window(seats.last().op, window) {
            seats.last().op_end_requests()
        } else {
            seq![]
        }
    }
}

/// The state after the first `n` windows of `wm` went through the removal of
/// closed windows: the windows kept so far, and the seats whose operation was
/// on a closed window have ended it.
pub open spec fn remove_windows_prefix(wm: WmView, n: nat) -> WmStep
    decreases n,
{
    if n == 0 {
        WmStep { wm: WmView { windows: seq![], ..wm }, requests: seq![] }
    } else {
        let prev = remove_windows_prefix(wm, (n - 1) as nat);
        let w = wm.windows[n - 1];
        if w.closed {
            WmStep {
                wm: WmView { seats: end_ops_on(prev.wm.seats, w.id), ..prev.wm },
                requests: prev.requests + end_ops_requests(prev.wm.seats, w.id),
            }
        } else {
            WmStep { wm: WmView { windows: prev.wm.windows.push(w), ..prev.wm }, requests: prev.requests }
        }
    }
}

impl WindowManager {
    /// Ends the operation of every seat whose operation is on `window`.
    fn end_ops_on_window(&mut self, window: u32, out: &mut Vec<Request>)
        ensures
            final(self)@ == (WmView { seats: end_ops_on(old(self)@.seats, window), ..old(self)@ }),
            requests_view(final(out)@) == requests_view(old(out)@) + end_ops_requests(
                old(self)@.seats,
                window,
            ),
    {
        let ghost r0 = requests_view(out@);
        let ghost s0 = old(self)@.seats;
        let mut j: usize = 0;
        while j < self.seats.len()
            invariant
                self.windows@ == old(self)@.windows,
                self.outputs@ == old(self)@.outputs,
                self.seats@.len() == s0.len(),
                j <= s0.len(),
                forall|k: int| 0 <= k < j ==> #[trigger] self.seats@[k]@ == end_op_on(s0[k], window),
                forall|k: int| j <= k < s0.len() ==> #[trigger] self.seats@[k]@ == s0[k],
                requests_view(out@) == r0 + end_ops_requests(s0.take(j as int), window),
            decreases s0.len() - j,
        {
            assert(s0.take(j + 1).drop_last() =~= s0.take(j as int));
            assert(self.seats@[j as int]@ == s0[j as int]);
            if is_op_on_window(self.seats[j].op, window) {
                self.seats[j].op_end(out);
            }
            assert(requests_view(out@) =~= r0 + end_ops_requests(s0.take(j + 1), window));
            j += 1;
        }
        assert(s0.take(s0.len() as int) =~= s0);
        assert(seats_view(self.seats@) =~= end_ops_on(s0, window));
        assert(self@ =~= (WmView { seats: end_ops_on(old(self)@.seats, window), ..old(self)@ }));
    }

    /// Forgets the closed windows; the seats whose operation was on one of
    /// them end it.
    fn remove_windows(&mut self, out: &mut Vec<Request>)
        ensures
            final(self)@ == remove_windows_prefix(old(self)@, old(self)@.windows.len()).wm,
            requests_view(final(out)@) == requests_view(old(out)@) + remove_windows_prefix(
                old(self)@,
                old(self)@.windows.len(),
            ).requests,
    {
        let ghost r0 = requests_view(out@);
        let ghost wm0 = self@;
        let mut old_windows: Vec<Window> = Vec::new();
        std::mem::swap(&mut old_windows, &mut self.windows);
        assert(self@ =~= remove_windows_prefix(wm0, 0).wm);
        let mut i: usize = 0;
        while i < old_windows.len()
            invariant
                old_windows@ == wm0.windows,
                i <= wm0.windows.len(),
                self@ == remove_windows_prefix(wm0, i as nat).wm,
                requests_view(out@) == r0 + remove_windows_prefix(wm0, i as nat).requests,
            decreases wm0.windows.len() - i,
        {
            let w = old_windows[i];
            if w.closed {
                self.end_ops_on_window(w.id, out);
                assert(requests_view(out@) =~= r0 + remove_windows_prefix(wm0, (i + 1) as nat).requests);
            } else {
                self.windows.push(w);
            }
            assert(self@ =~= remove_windows_prefix(wm0, (i + 1) as nat).wm);
            i += 1;
        }
    }
}


/// One request to destroy each key binding, in order.
pub open spec fn xkb_destroy_requests(bs: Seq<XkbBinding>) -> Seq<RequestView> {
    bs.map_values(|b: XkbBinding| RequestView::DestroyXkbBinding { binding: b.id })
}

/// One request to destroy each pointer binding, in order.
pub open spec fn pointer_destroy_requests(bs: Seq<PointerBinding>) -> Seq<RequestView> {
    bs.map_values(|b: PointerBinding| RequestView::DestroyPointerBinding { binding: b.id })
}

/// The requests that destroy a seat: its key bindings, its pointer bindings,
/// then the seat itself.
pub open spec fn seat_destroy_requests(s: SeatView) -> Seq<RequestView> {
    xkb_destroy_requests(s.xkb_bindings) + pointer_destroy_requests(s.pointer_bindings) + seq![
        RequestView::DestroySeat { seat: s.id },
    ]
}

/// The seats that are not removed, in order.
pub open spec fn kept_seats(seats: Seq<SeatView>) -> Seq<SeatView>
    decreases seats.len(),
{
    if seats.len() == 0 {
        seq![]
    } else {
        let kept = kept_seats(seats.drop_last());
        if seats.last().removed {
            kept
        } else {
            kept.push(seats.last())
        }
    }
}

/// The requests that destroy each removed seat, in order.
pub open spec fn removed_seat_requests(seats: Seq<SeatView>) -> Seq<RequestView>
    decreases seats.len(),
{
    if seats.len() == 0 {
        seq![]
    } else {
        let reqs = removed_seat_requests(seats.drop_last());
        if seats.last().removed {
            reqs + seat_destroy_requests(seats.last())
        } else {
            reqs
        }
    }
}

impl Seat {
    /// Destroys the seat's bindings, then the seat.
    fn destroy(&self, out: &mut Vec<Request>)
        ensures
            requests_view(final(out)@) == requests_view(old(out)@) + seat_destroy_requests(self@),
    {
        let ghost r0 = requests_view(out@);
        let mut k: usize = 0;
        while k < self.xkb_bindings.len()
            invariant
                k <= self.xkb_bindings@.len(),
                requests_view(out@) == r0 + xkb_destroy_requests(self.xkb_bindings@).take(k as int),
            decreases self.xkb_bindings@.len() - k,
        {
            let ghost xs = xkb_destroy_requests(self.xkb_bindings@);
            emit(out, Request::DestroyXkbBinding { binding: self.xkb_bindings[k].id });
            assert(xs.take(k + 1) =~= xs.take(k as int).push(xs[k as int]));
            assert(requests_view(out@) =~= r0 + xs.take(k + 1));
            k += 1;
        }
        assert(xkb_destroy_requests(self.xkb_bindings@).take(k as int) =~= xkb_destroy_requests(
            self.xkb_bindings@,
        ));
        let ghost r1 = requests_view(out@);
        let mut k: usize = 0;
        while k < self.pointer_bindings.len()
            invariant
                k <= self.pointer_bindings@.len(),
                requests_view(out@) == r1 + pointer_destroy_requests(self.pointer_bindings@).take(
                    k as int,
                ),
            decreases self.pointer_bindings@.len() - k,
        {
            let ghost ps = pointer_destroy_requests(self.pointer_bindings@);
            emit(out, Request::DestroyPointerBinding { binding: self.pointer_bindings[k].id });
            assert(ps.take(k + 1) =~= ps.take(k as int).push(ps[k as int]));
            assert(requests_view(out@) =~= r1 + ps.take(k + 1));
            k += 1;
        }
        assert(pointer_destroy_requests(self.pointer_bindings@).take(k as int)
            =~= pointer_destroy_requests(self.pointer_bindings@));
        emit(out, Request::DestroySeat { seat: self.id });
        assert(requests_view(out@) =~= r0 + seat_destroy_requests(self@));
    }
}

impl WindowManager {
    /// Forgets the removed seats and destroys their objects.
    fn remove_seats(&mut self, out: &mut Vec<Request>)
        ensures
            final(self)@ == (WmView { seats: kept_seats(old(self)@.seats), ..old(self)@ }),
            requests_view(final(out)@) == requests_view(old(out)@) + removed_seat_requests(
                old(self)@.seats,
            ),
    {
        let ghost r0 = requests_view(out@);
        let ghost s0 = old(self)@.seats;
        let mut rest: Vec<Seat> = Vec::new();
        std::mem::swap(&mut rest, &mut self.seats);
        let n: usize = rest.len();
        let mut i: usize = 0;
        while rest.len() > 0
            invariant
                self.windows@ == old(self)@.windows,
                self.outputs@ == old(self)@.outputs,
                s0.len() == n,
                i <= n,
                rest@.len() == n - i,
                seats_view(rest@) == s0.skip(i as int),
                seats_view(self.seats@) == kept_seats(s0.take(i as int)),
                requests_view(out@) == r0 + removed_seat_requests(s0.take(i as int)),
            decreases rest@.len(),
        {
            let ghost before = rest@;
            let seat = rest.remove(0);
            assert(seat@ == seats_view(before)[0]);
            assert(seat@ == s0[i as int]);
            assert forall|k: int| 0 <= k < rest@.len() implies seats_view(rest@)[k] == s0.skip(
                i + 1,
            )[k] by {
                assert(rest@[k] == before[k + 1]);
                assert(seats_view(before)[k + 1] == s0.skip(i as int)[k + 1]);
            }
            assert(seats_view(rest@) =~= s0.skip(i + 1));
            assert(s0.take(i + 1).drop_last() =~= s0.take(i as int));
            if seat.removed {
                seat.destroy(out);
            } else {
                let ghost kept_before = self.seats@;
                self.seats.push(seat);
                assert(seats_view(self.seats@) =~= seats_view(kept_before).push(s0[i as int]));
            }
            i += 1;
        }
        assert(s0.take(n as int) =~= s0);
        assert(self@ =~= (WmView { seats: kept_seats(old(self)@.seats), ..old(self)@ }));
    }
}


/// The window after a manage sequence placed and sized it if it was new.
pub open spec fn initialized_window(w: Window) -> Window {
    if w.new {
        Window { new: false, ..w }
    } else {
        w
    }
}

/// The windows after a manage sequence placed and sized the new ones.
pub open spec fn initialized_windows(ws: Seq<Window>) -> Seq<Window> {
    ws.map_values(|w: Window| initialized_window(w))
}

/// The requests that place each new window where it is and propose its
/// current size, in order.
pub open spec fn new_window_requests(ws: Seq<Window>) -> Seq<RequestView>
    decreases ws.len(),
{
    if ws.len() == 0 {
        seq![]
    } else {
        let w = ws.last();
        new_window_requests(ws.drop_last()) + if w.new {
            seq![
                RequestView::SetPosition { window: w.id, x: w.x, y: w.y },
                RequestView::ProposeDimensions { window: w.id, width: w.width, height: w.height },
            ]
        } else {
            seq![]
        }
    }
}

/// The logo modifier key.
pub const MOD4: u32 = 64;

/// Keysym of the space bar.
pub const KEY_SPACE: u32 = 0x20;

/// Keysym of the letter n.
pub const KEY_N: u32 = 0x6e;

/// Keysym of the letter q.
pub const KEY_Q: u32 = 0x71;

/// Keysym of the escape key.
pub const KEY_ESC: u32 = 0xff1b;

/// Keysym of the left arrow key.
pub const KEY_LEFT: u32 = 0xff51;

/// Keysym of the up arrow key.
pub const KEY_UP: u32 = 0xff52;

/// Keysym of the right arrow key.
pub const KEY_RIGHT: u32 = 0xff53;

/// Keysym of the down arrow key.
pub const KEY_DOWN: u32 = 0xff54;

/// Input event code of the left mouse button.
pub const BUTTON_LEFT: u32 = 0x110;

/// Input event code of the right mouse button.
pub const BUTTON_RIGHT: u32 = 0x111;

/// The bindings that every seat gets, as requests to create them: with the
/// logo key, space starts a terminal, q closes the focused window, the right
/// and left arrows move the focus, escape ends the session, the left button
/// moves and the right button resizes the window under the pointer.
pub open spec fn default_binding_requests(seat: u32) -> Seq<RequestView> {
    seq![
        RequestView::CreateXkbBinding {
            seat,
            keysym: KEY_SPACE,
            modifiers: MOD4,
            action: ActionView::Spawn(seq!["kitty"@]),
        },
        RequestView::CreateXkbBinding {
            seat,
            keysym: KEY_Q,
            modifiers: MOD4,
            action: ActionView::Close,
        },
        RequestView::CreateXkbBinding {
            seat,
            keysym: KEY_RIGHT,
            modifiers: MOD4,
            action: ActionView::FocusRight,
        },
        RequestView::CreateXkbBinding {
            seat,
            keysym: KEY_LEFT,
            modifiers: MOD4,
            action: ActionView::FocusLeft,
        },
        RequestView::CreateXkbBinding {
            seat,
            keysym: KEY_ESC,
            modifiers: MOD4,
            action: ActionView::Exit,
        },
        RequestView::CreatePointerBinding {
            seat,
            button: BUTTON_LEFT,
            modifiers: MOD4,
            action: ActionView::Move,
        },
        RequestView::CreatePointerBinding {
            seat,
            button: BUTTON_RIGHT,
            modifiers: MOD4,
            action: ActionView::Resize,
        },
    ]
}

/// The seat after a manage sequence created its bindings if it was new.
pub open spec fn initialized_seat(s: SeatView) -> SeatView {
    if s.new {
        SeatView { new: false, ..s }
    } else {
        s
    }
}

/// The seats after a manage sequence created the bindings of the new ones.
pub open spec fn initialized_seats(seats: Seq<SeatView>) -> Seq<SeatView> {
    seats.map_values(|s: SeatView| initialized_seat(s))
}

/// The requests that create the bindings of each new seat, in order.
pub open spec fn new_seat_requests(seats: Seq<SeatView>) -> Seq<RequestView>
    decreases seats.len(),
{
    if seats.len() == 0 {
        seq![]
    } else {
        new_seat_requests(seats.drop_last()) + if seats.last().new {
            default_binding_requests(seats.last().id)
        } else {
            seq![]
        }
    }
}

/// Sends the requests that create the default bindings of seat `seat`.
fn create_default_bindings(seat: u32, out: &mut Vec<Request>)
    ensures
        requests_view(final(out)@) == requests_view(old(out)@) + default_binding_requests(seat),
{
    let ghost r0 = requests_view(out@);
    let kitty = String::from_str("kitty");
    let command = vec![kitty];
    assert(command.deep_view() =~= seq!["kitty"@]);
    emit(
        out,
        Request::CreateXkbBinding {
            seat,
            keysym: KEY_SPACE,
            modifiers: MOD4,
            action: Action::Spawn(command),
        },
    );
    emit(
        out,
        Request::CreateXkbBinding { seat, keysym: KEY_Q, modifiers: MOD4, action: Action::Close },
    );
    emit(
        out,
        Request::CreateXkbBinding {
            seat,
            keysym: KEY_RIGHT,
            modifiers: MOD4,
            action: Action::FocusRight,
        },
    );
    emit(
        out,
        Request::CreateXkbBinding {
            seat,
            keysym: KEY_LEFT,
            modifiers: MOD4,
            action: Action::FocusLeft,
        },
    );
    emit(
        out,
        Request::CreateXkbBinding { seat, keysym: KEY_ESC, modifiers: MOD4, action: Action::Exit },
    );
    emit(
        out,
        Request::CreatePointerBinding {
            seat,
            button: BUTTON_LEFT,
            modifiers: MOD4,
            action: Action::Move,
        },
    );
    emit(
        out,
        Request::CreatePointerBinding {
            seat,
            button: BUTTON_RIGHT,
            modifiers: MOD4,
            action: Action::Resize,
        },
    );
    assert(requests_view(out@) =~= r0 + default_binding_requests(seat));
}

impl WindowManager {
    /// Places each new window where it is and proposes its current size.
    ///
    /// Afterwards no window is new, so doing it again changes nothing and sends
    /// no request.
    pub fn init_new_windows(&mut self, out: &mut Vec<Request>)
        ensures
            final(self)@ == (WmView { windows: initialized_windows(old(self)@.windows), ..old(self)@ }),
            requests_view(final(out)@) == requests_view(old(out)@) + new_window_requests(
                old(self)@.windows,
            ),
            initialized_windows(final(self)@.windows) == final(self)@.windows,
            new_window_requests(final(self)@.windows) == Seq::<RequestView>::empty(),
    {
        proof {
            crate::laws::law_window_initialization_is_idempotent(old(self)@.windows);
        }
        let ghost r0 = requests_view(out@);
        let ghost w0 = old(self)@.windows;
        let mut j: usize = 0;
        while j < self.windows.len()
            invariant
                self.outputs@ == old(self)@.outputs,
                self.seats@ == old(self).seats@,
                self.windows@.len() == w0.len(),
                j <= w0.len(),
                forall|k: int| 0 <= k < j ==> #[trigger] self.windows@[k] == initialized_window(w0[k]),
                forall|k: int| j <= k < w0.len() ==> #[trigger] self.windows@[k] == w0[k],
                requests_view(out@) == r0 + new_window_requests(w0.take(j as int)),
            decreases w0.len() - j,
        {
            assert(w0.take(j + 1).drop_last() =~= w0.take(j as int));
            assert(self.windows@[j as int] == w0[j as int]);
            if self.windows[j].new {
                let x = self.windows[j].x;
                let y = self.windows[j].y;
                self.windows[j].set_position(x, y, out);
                let id = self.windows[j].id;
                let width = self.windows[j].width;
                let height = self.windows[j].height;
                emit(out, Request::ProposeDimensions { window: id, width, height });
                self.windows[j].new = false;
            }
            assert(requests_view(out@) =~= r0 + new_window_requests(w0.take(j + 1)));
            j += 1;
        }
        assert(w0.take(w0.len() as int) =~= w0);
        assert(self@ =~= (WmView { windows: initialized_windows(old(self)@.windows), ..old(self)@ }));
    }

    /// Creates the default bindings of each new seat.
    ///
    /// Afterwards no seat is new, so doing it again changes nothing and creates
    /// no binding.
    pub fn init_new_seats(&mut self, out: &mut Vec<Request>)
        ensures
            final(self)@ == (WmView { seats: initialized_seats(old(self)@.seats), ..old(self)@ }),
            requests_view(final(out)@) == requests_view(old(out)@) + new_seat_requests(
                old(self)@.seats,
            ),
            initialized_seats(final(self)@.seats) == final(self)@.seats,
            new_seat_requests(final(self)@.seats) == Seq::<RequestView>::empty(),
    {
        proof {
            crate::laws::law_seat_initialization_is_idempotent(old(self)@.seats);
        }
        let ghost r0 = requests_view(out@);
        let ghost s0 = old(self)@.seats;
        let mut j: usize = 0;
        while j < self.seats.len()
            invariant
                self.outputs@ == old(self)@.outputs,
                self.windows@ == old(self)@.windows,
                self.seats@.len() == s0.len(),
                j <= s0.len(),
                forall|k: int| 0 <= k < j ==> #[trigger] self.seats@[k]@ == initialized_seat(s0[k]),
                forall|k: int| j <= k < s0.len() ==> #[trigger] self.seats@[k]@ == s0[k],
                requests_view(out@) == r0 + new_seat_requests(s0.take(j as int)),
            decreases s0.len() - j,
        {
            assert(s0.take(j + 1).drop_last() =~= s0.take(j as int));
            assert(self.seats@[j as int]@ == s0[j as int]);
            if self.seats[j].new {
                create_default_bindings(self.seats[j].id, out);
                self.seats[j].new = false;
            }
            assert(self.seats@[j as int]@ =~= initialized_seat(s0[j as int]));
            assert(requests_view(out@) =~= r0 + new_seat_requests(s0.take(j + 1)));
            j += 1;
        }
        assert(s0.take(s0.len() as int) =~= s0);
        assert(seats_view(self.seats@) =~= initialized_seats(s0));
        assert(self@ =~= (WmView { seats: initialized_seats(old(self)@.seats), ..old(self)@ }));
    }
}


/// The seats have the values `target` when every seat but seat `i` kept its
/// value in `target` and seat `i` has its value there.
pub proof fn lemma_seats_view_update(seats: Seq<Seat>, i: int, target: Seq<SeatView>)
    requires
        0 <= i < seats.len(),
        seats.len() == target.len(),
        forall|j: int| 0 <= j < seats.len() && j != i ==> #[trigger] seats[j]@ == target[j],
        seats[i]@ =~= target[i],
    ensures
        seats_view(seats) == target,
{
    assert(seats_view(seats) =~= target);
}

/// Finds the first seat with id `id`.
pub fn find_seat(seats: &Vec<Seat>, id: u32) -> (r: Option<usize>)
    ensures
        r matches Some(i) ==> seat_index(seats_view(seats@), id) == Some(i as int),
        r is None ==> seat_index(seats_view(seats@), id) is None,
{
    assert(keys(seats@) =~= seat_ids(seats_view(seats@)));
    find_by_key(seats, id)
}

/// The state after window `i` handed its pointer move request, if any, to the
/// seat it names: that seat starts moving the window.
pub open spec fn move_request_step(wm: WmView, i: int) -> Result<WmStep, WmError> {
    let w = wm.windows[i];
    let w1 = Window { pointer_move_requested: None, ..w };
    match w.pointer_move_requested {
        None => Ok(
            WmStep { wm: WmView { windows: wm.windows.update(i, w1), ..wm }, requests: seq![] },
        ),
        Some(seat) => match seat_index(wm.seats, seat) {
            None => Err(WmError::SeatNotFound),
            Some(j) => Ok(
                WmStep {
                    wm: WmView {
                        windows: wm.windows.update(i, w1),
                        seats: wm.seats.update(j, wm.seats[j].after_pointer_move(w1)),
                        ..wm
                    },
                    requests: wm.seats[j].pointer_move_requests(),
                },
            ),
        },
    }
}

/// The state after window `i` handed its pointer resize request, if any, to
/// the seat it names: that seat starts resizing the window by the requested
/// edges.
pub open spec fn resize_request_step(wm: WmView, i: int) -> Result<WmStep, WmError> {
    let w = wm.windows[i];
    let w1 = Window { pointer_resize_requested: None, ..w };
    match w.pointer_resize_requested {
        None => Ok(
            WmStep { wm: WmView { windows: wm.windows.update(i, w1), ..wm }, requests: seq![] },
        ),
        Some(seat) => match seat_index(wm.seats, seat) {
            None => Err(WmError::SeatNotFound),
            Some(j) => Ok(
                WmStep {
                    wm: WmView {
                        windows: wm.windows.update(i, w1),
                        seats: wm.seats.update(
                            j,
                            wm.seats[j].after_pointer_resize(w1, w.pointer_resize_requested_edges),
                        ),
                        ..wm
                    },
                    requests: wm.seats[j].pointer_resize_requests(w1),
                },
            ),
        },
    }
}

/// The state after window `i` handed its pointer move, then its pointer
/// resize request to the seats they name.
pub open spec fn manage_window_step(wm: WmView, i: int) -> Result<WmStep, WmError> {
    match move_request_step(wm, i) {
        Err(e) => Err(e),
        Ok(m) => match resize_request_step(m.wm, i) {
            Err(e) => Err(e),
            Ok(q) => Ok(WmStep { wm: q.wm, requests: m.requests + q.requests }),
        },
    }
}

/// The state after the first `n` windows went through [`manage_window_step`].
pub open spec fn manage_windows_prefix(wm: WmView, n: nat) -> Result<WmStep, WmError>
    decreases n,
{
    if n == 0 {
        Ok(WmStep { wm, requests: seq![] })
    } else {
        match manage_windows_prefix(wm, (n - 1) as nat) {
            Err(e) => Err(e),
            Ok(p) => match manage_window_step(p.wm, n - 1) {
                Err(e) => Err(e),
                Ok(q) => Ok(WmStep { wm: q.wm, requests: p.requests + q.requests }),
            },
        }
    }
}

/// Once a prefix fails, every longer prefix fails the same way.
pub proof fn lemma_manage_windows_err(wm: WmView, i: nat, n: nat)
    requires
        i <= n,
        manage_windows_prefix(wm, i) is Err,
    ensures
        manage_windows_prefix(wm, n) == manage_windows_prefix(wm, i),
    decreases n - i,
{
    if i < n {
        lemma_manage_windows_err(wm, i, (n - 1) as nat);
    }
}

impl WindowManager {
    /// Window `i` hands its pointer move request, if any, to the seat it names.
    fn take_move_request(&mut self, i: usize, out: &mut Vec<Request>) -> (r: Result<(), WmError>)
        requires
            i < old(self)@.windows.len(),
        ensures
            match move_request_step(old(self)@, i as int) {
                Ok(m) => {
                    &&& r is Ok
                    &&& final(self)@ == m.wm
                    &&& requests_view(final(out)@) == requests_view(old(out)@) + m.requests
                },
                Err(e) => r == Err::<(), WmError>(e),
            },
    {
        let ghost r0 = requests_view(out@);
        let w = self.windows[i];
        let w1 = Window { pointer_move_requested: None, ..w };
        if let Some(seat) = w.pointer_move_requested {
            match find_seat(&self.seats, seat) {
                None => {
                    return Err(WmError::SeatNotFound);
                },
                Some(j) => {
                    self.windows.set(i, w1);
                    self.seats[j].pointer_move(&w1, out);
                },
            }
        } else {
            self.windows.set(i, w1);
            assert(requests_view(out@) =~= r0 + seq![]);
        }
        assert(self@ =~= move_request_step(old(self)@, i as int)->Ok_0.wm);
        Ok(())
    }

    /// Window `i` hands its pointer resize request, if any, to the seat it
    /// names.
    fn take_resize_request(&mut self, i: usize, out: &mut Vec<Request>) -> (r: Result<(), WmError>)
        requires
            i < old(self)@.windows.len(),
        ensures
            match resize_request_step(old(self)@, i as int) {
                Ok(m) => {
                    &&& r is Ok
                    &&& final(self)@ == m.wm
                    &&& requests_view(final(out)@) == requests_view(old(out)@) + m.requests
                },
                Err(e) => r == Err::<(), WmError>(e),
            },
    {
        let ghost r0 = requests_view(out@);
        let w = self.windows[i];
        let w1 = Window { pointer_resize_requested: None, ..w };
        if let Some(seat) = w.pointer_resize_requested {
            match find_seat(&self.seats, seat) {
                None => {
                    return Err(WmError::SeatNotFound);
                },
                Some(j) => {
                    self.windows.set(i, w1);
                    self.seats[j].pointer_resize(&w1, w.pointer_resize_requested_edges, out);
                },
            }
        } else {
            self.windows.set(i, w1);
            assert(requests_view(out@) =~= r0 + seq![]);
        }
        assert(self@ =~= resize_request_step(old(self)@, i as int)->Ok_0.wm);
        Ok(())
    }

    /// Hands the pointer move and resize requests of the windows to the seats
    /// they name.
    fn manage_windows(&mut self, out: &mut Vec<Request>) -> (r: Result<(), WmError>)
        ensures
            match manage_windows_prefix(old(self)@, old(self)@.windows.len()) {
                Ok(p) => {
                    &&& r is Ok
                    &&& final(self)@ == p.wm
                    &&& requests_view(final(out)@) == requests_view(old(out)@) + p.requests
                },
                Err(e) => r == Err::<(), WmError>(e),
            },
    {
        let ghost r0 = requests_view(out@);
        let ghost wm0 = self@;
        let n = self.windows.len();
        let mut i: usize = 0;
        assert(r0 + seq![] =~= r0);
        while i < n
            invariant
                wm0 == old(self)@,
                r0 == requests_view(old(out)@),
                n == wm0.windows.len(),
                i <= n,
                self.windows@.len() == n,
                manage_windows_prefix(wm0, i as nat) matches Ok(p) && p.wm == self@
                    && requests_view(out@) == r0 + p.requests,
            decreases n - i,
        {
            let ghost p = manage_windows_prefix(wm0, i as nat)->Ok_0;
            let r = self.take_move_request(i, out);
            if r.is_err() {
                proof {
                    assert(manage_windows_prefix(wm0, (i + 1) as nat) == Err::<WmStep, WmError>(
                        move_request_step(p.wm, i as int)->Err_0,
                    ));
                    lemma_manage_windows_err(wm0, (i + 1) as nat, n as nat);
                }
                return r;
            }
            let ghost m = move_request_step(p.wm, i as int)->Ok_0;
            let r = self.take_resize_request(i, out);
            if r.is_err() {
                proof {
                    assert(manage_windows_prefix(wm0, (i + 1) as nat) == Err::<WmStep, WmError>(
                        resize_request_step(m.wm, i as int)->Err_0,
                    ));
                    lemma_manage_windows_err(wm0, (i + 1) as nat, n as nat);
                }
                return r;
            }
            assert(requests_view(out@) =~= r0 + (p.requests + (m.requests
                + resize_request_step(m.wm, i as int)->Ok_0.requests)));
            i += 1;
        }
        Ok(())
    }
}

/// The windows after window `i` was raised to the top (the end).
pub open spec fn raised_window(ws: Seq<Window>, i: int) -> Seq<Window> {
    ws.remove(i).push(ws[i])
}

/// The state after seat `j` raised the window it interacted with, if any.
pub open spec fn raise_interacted_step(wm: WmView, j: int) -> Result<WmView, WmError> {
    let s = wm.seats[j];
    match s.interacted {
        None => Ok(wm),
        Some(w) => match window_index(wm.windows, w) {
            None => Err(WmError::InteractedWindowNotFound),
            Some(i) => Ok(
                WmView {
                    windows: raised_window(wm.windows, i),
                    seats: wm.seats.update(j, SeatView { interacted: None, ..s }),
                    ..wm
                },
            ),
        },
    }
}

/// The seat after the end of a manage step: a released pointer ends its
/// operation, otherwise the operation goes on.
pub open spec fn after_op_step(s: SeatView) -> SeatView {
    if s.op_release {
        SeatView { op_release: false, ..s.after_op_end() }
    } else {
        s
    }
}

pub open spec fn op_step_requests(s: SeatView) -> Seq<RequestView> {
    if s.op_release {
        s.op_end_requests()
    } else {
        s.op_manage_requests()
    }
}

/// The state after seat `j` focused the topmost window, carried out its
/// pending action and ended or carried on its pointer operation.
pub open spec fn seat_actions_step(wm: WmView, j: int) -> Result<WmStep, WmError> {
    let s = wm.seats[j];
    let s1 = s.after_focus_top(wm.windows);
    match s1.do_action_outcome(wm.windows) {
        Err(e) => Err(e),
        Ok(step) => Ok(
            WmStep {
                wm: WmView {
                    windows: step.windows,
                    seats: wm.seats.update(j, after_op_step(step.seat)),
                    ..wm
                },
                requests: s.focus_top_requests(wm.windows) + step.requests + op_step_requests(
                    step.seat,
                ),
            },
        ),
    }
}

/// The state after seat `j` went through its part of a manage sequence.
pub open spec fn manage_seat_step(wm: WmView, j: int) -> Result<WmStep, WmError> {
    match raise_interacted_step(wm, j) {
        Err(e) => Err(e),
        Ok(w1) => seat_actions_step(w1, j),
    }
}

/// The state after the first `n` seats went through [`manage_seat_step`].
pub open spec fn manage_seats_prefix(wm: WmView, n: nat) -> Result<WmStep, WmError>
    decreases n,
{
    if n == 0 {
        Ok(WmStep { wm, requests: seq![] })
    } else {
        match manage_seats_prefix(wm, (n - 1) as nat) {
            Err(e) => Err(e),
            Ok(p) => match manage_seat_step(p.wm, n - 1) {
                Err(e) => Err(e),
                Ok(q) => Ok(WmStep { wm: q.wm, requests: p.requests + q.requests }),
            },
        }
    }
}

/// Once a prefix fails, every longer prefix fails the same way.
pub proof fn lemma_manage_seats_err(wm: WmView, i: nat, n: nat)
    requires
        i <= n,
        manage_seats_prefix(wm, i) is Err,
    ensures
        manage_seats_prefix(wm, n) == manage_seats_prefix(wm, i),
    decreases n - i,
{
    if i < n {
        lemma_manage_seats_err(wm, i, (n - 1) as nat);
    }
}

impl WindowManager {
    /// Seat `j` raises the window it interacted with, if any, to the top.
    fn raise_interacted(&mut self, j: usize) -> (r: Result<(), WmError>)
        requires
            j < old(self)@.seats.len(),
        ensures
            match raise_interacted_step(old(self)@, j as int) {
                Ok(w) => r is Ok && final(self)@ == w,
                Err(e) => r == Err::<(), WmError>(e),
            },
    {
        if let Some(w) = self.seats[j].interacted {
            match find_window(&self.windows, w) {
                None => {
                    return Err(WmError::InteractedWindowNotFound);
                },
                Some(i) => {
                    self.seats[j].interacted = None;
                    let win = self.windows.remove(i);
                    self.windows.push(win);
                },
            }
        }
        assert(self@ =~= raise_interacted_step(old(self)@, j as int)->Ok_0);
        Ok(())
    }

    /// Seat `j` focuses the topmost window, carries out its pending action and
    /// ends or carries on its pointer operation.
    fn run_seat_actions(&mut self, j: usize, out: &mut Vec<Request>) -> (r: Result<(), WmError>)
        requires
            j < old(self)@.seats.len(),
        ensures
            match seat_actions_step(old(self)@, j as int) {
                Ok(m) => {
                    &&& r is Ok
                    &&& final(self)@ == m.wm
                    &&& requests_view(final(out)@) == requests_view(old(out)@) + m.requests
                },
                Err(e) => r == Err::<(), WmError>(e),
            },
    {
        let ghost r0 = requests_view(out@);
        let ghost wm0 = self@;
        self.seats[j].focus_top(&self.windows, out);
        let r = self.seats[j].do_action(&mut self.windows, out);
        if r.is_err() {
            return r;
        }
        let ghost step = wm0.seats[j as int].after_focus_top(wm0.windows).do_action_outcome(
            wm0.windows,
        )->Ok_0;
        if self.seats[j].op_release {
            self.seats[j].op_end(out);
            self.seats[j].op_release = false;
        } else {
            self.seats[j].op_manage(out);
        }
        assert(self.seats@[j as int]@ =~= after_op_step(step.seat));
        assert(seats_view(self.seats@) =~= wm0.seats.update(j as int, after_op_step(step.seat)));
        assert(self@ =~= seat_actions_step(wm0, j as int)->Ok_0.wm);
        assert(requests_view(out@) =~= r0 + seat_actions_step(wm0, j as int)->Ok_0.requests);
        Ok(())
    }

    /// Each seat in turn raises the window it interacted with, focuses the
    /// topmost window, carries out its pending action and ends or carries on
    /// its pointer operation.
    fn manage_seats(&mut self, out: &mut Vec<Request>) -> (r: Result<(), WmError>)
        ensures
            match manage_seats_prefix(old(self)@, old(self)@.seats.len()) {
                Ok(p) => {
                    &&& r is Ok
                    &&& final(self)@ == p.wm
                    &&& requests_view(final(out)@) == requests_view(old(out)@) + p.requests
                },
                Err(e) => r == Err::<(), WmError>(e),
            },
    {
        let ghost r0 = requests_view(out@);
        let ghost wm0 = self@;
        let n = self.seats.len();
        let mut j: usize = 0;
        assert(r0 + seq![] =~= r0);
        while j < n
            invariant
                wm0 == old(self)@,
                r0 == requests_view(old(out)@),
                n == wm0.seats.len(),
                j <= n,
                self.seats@.len() == n,
                manage_seats_prefix(wm0, j as nat) matches Ok(p) && p.wm == self@
                    && requests_view(out@) == r0 + p.requests,
            decreases n - j,
        {
            let ghost p = manage_seats_prefix(wm0, j as nat)->Ok_0;
            let r = self.raise_interacted(j);
            if r.is_err() {
                proof {
                    assert(manage_seats_prefix(wm0, (j + 1) as nat) == Err::<WmStep, WmError>(
                        raise_interacted_step(p.wm, j as int)->Err_0,
                    ));
                    lemma_manage_seats_err(wm0, (j + 1) as nat, n as nat);
                }
                return r;
            }
            let ghost w1 = raise_interacted_step(p.wm, j as int)->Ok_0;
            let r = self.run_seat_actions(j, out);
            if r.is_err() {
                proof {
                    assert(manage_seats_prefix(wm0, (j + 1) as nat) == Err::<WmStep, WmError>(
                        seat_actions_step(w1, j as int)->Err_0,
                    ));
                    lemma_manage_seats_err(wm0, (j + 1) as nat, n as nat);
                }
                return r;
            }
            assert(requests_view(out@) =~= r0 + (p.requests + seat_actions_step(
                w1,
                j as int,
            )->Ok_0.requests));
            assert(seats_view(self.seats@).len() == self.seats@.len());
            j += 1;
        }
        Ok(())
    }
}

/// The outcome of a manage sequence: the removed outputs, closed windows and
/// removed seats are forgotten, new windows are placed and new seats get their
/// bindings, windows hand their pointer requests to seats, each seat carries
/// out its pending work, and the sequence is declared finished.
pub open spec fn manage_start_outcome(wm: WmView) -> Result<WmStep, WmError> {
    let wm1 = WmView { outputs: kept_outputs(wm.outputs), ..wm };
    let rw = remove_windows_prefix(wm1, wm1.windows.len());
    let wm3 = WmView { seats: kept_seats(rw.wm.seats), ..rw.wm };
    let wm4 = WmView { windows: initialized_windows(wm3.windows), ..wm3 };
    let wm5 = WmView { seats: initialized_seats(wm4.seats), ..wm4 };
    let early = removed_output_requests(wm.outputs) + rw.requests + removed_seat_requests(
        rw.wm.seats,
    ) + new_window_requests(wm3.windows) + new_seat_requests(wm4.seats);
    match manage_windows_prefix(wm5, wm5.windows.len()) {
        Err(e) => Err(e),
        Ok(p6) => match manage_seats_prefix(p6.wm, p6.wm.seats.len()) {
            Err(e) => Err(e),
            Ok(p7) => Ok(
                WmStep {
                    wm: p7.wm,
                    requests: early + p6.requests + p7.requests + seq![RequestView::ManageFinish],
                },
            ),
        },
    }
}

/// Position that a pointer operation gives window `w` in a render sequence,
/// if it acts on it: a move puts the window at its start plus the pointer
/// travel; a resize by the left or top edge keeps the opposite edge in place.
/// The arithmetic wraps on `i32`.
pub open spec fn op_position(s: SeatView, w: Window) -> (i32, i32) {
    match s.op {
        SeatOp::Move { start_x, start_y, .. } => (
            start_x.wrapping_add(s.op_dx),
            start_y.wrapping_add(s.op_dy),
        ),
        SeatOp::Resize { start_x, start_y, start_width, start_height, edges, .. } => (
            if edges.left {
                start_x.wrapping_add(start_width.wrapping_sub(w.width))
            } else {
                start_x
            },
            if edges.top {
                start_y.wrapping_add(start_height.wrapping_sub(w.height))
            } else {
                start_y
            },
        ),
        _ => (w.x, w.y),
    }
}

/// The window that the seat's operation moves or resizes, if any.
pub open spec fn op_window(op: SeatOp) -> Option<u32> {
    match op {
        SeatOp::Move { window, .. } => Some(window),
        SeatOp::Resize { window, .. } => Some(window),
        _ => None,
    }
}

/// The state after seat `j` positioned the window of its operation, if that
/// window is still there.
pub open spec fn render_seat_step(wm: WmView, j: int) -> WmStep {
    let s = wm.seats[j];
    match op_window(s.op) {
        None => WmStep { wm, requests: seq![] },
        Some(window) => match window_index(wm.windows, window) {
            None => WmStep { wm, requests: seq![] },
            Some(k) => {
                let pos = op_position(s, wm.windows[k]);
                WmStep {
                    wm: WmView {
                        windows: wm.windows.update(k, Window { x: pos.0, y: pos.1, ..wm.windows[k] }),
                        ..wm
                    },
                    requests: seq![RequestView::SetPosition { window: wm.windows[k].id, x: pos.0, y: pos.1 }],
                }
            },
        },
    }
}

/// The state after the first `n` seats went through [`render_seat_step`].
pub open spec fn render_prefix(wm: WmView, n: nat) -> WmStep
    decreases n,
{
    if n == 0 {
        WmStep { wm, requests: seq![] }
    } else {
        let p = render_prefix(wm, (n - 1) as nat);
        let q = render_seat_step(p.wm, n - 1);
        WmStep { wm: q.wm, requests: p.requests + q.requests }
    }
}

/// The outcome of a render sequence: each seat positions the window of its
/// pointer operation, and the sequence is declared finished.
pub open spec fn render_start_outcome(wm: WmView) -> WmStep {
    let p = render_prefix(wm, wm.seats.len());
    WmStep { wm: p.wm, requests: p.requests.push(RequestView::RenderFinish) }
}

impl WindowManager {
    /// Handles the start of a manage sequence; see [`manage_start_outcome`].
    pub fn handle_manage_start(&mut self, out: &mut Vec<Request>) -> (r: Result<(), WmError>)
        ensures
            match manage_start_outcome(old(self)@) {
                Ok(step) => {
                    &&& r is Ok
                    &&& final(self)@ == step.wm
                    &&& requests_view(final(out)@) == requests_view(old(out)@) + step.requests
                },
                Err(e) => r == Err::<(), WmError>(e),
            },
    {
        let ghost r0 = requests_view(out@);
        self.remove_outputs(out);
        self.remove_windows(out);
        self.remove_seats(out);
        self.init_new_windows(out);
        self.init_new_seats(out);
        let ghost r5 = requests_view(out@);
        let r = self.manage_windows(out);
        if r.is_err() {
            return r;
        }
        let ghost r6 = requests_view(out@);
        let r = self.manage_seats(out);
        if r.is_err() {
            return r;
        }
        emit(out, Request::ManageFinish);
        proof {
            let step = manage_start_outcome(old(self)@)->Ok_0;
            assert(requests_view(out@) =~= r0 + step.requests);
        }
        Ok(())
    }

    /// Seat `j` positions the window of its pointer operation, if any.
    fn render_seat(&mut self, j: usize, out: &mut Vec<Request>)
        requires
            j < old(self)@.seats.len(),
        ensures
            final(self)@ == render_seat_step(old(self)@, j as int).wm,
            requests_view(final(out)@) == requests_view(old(out)@) + render_seat_step(
                old(self)@,
                j as int,
            ).requests,
    {
        let ghost r0 = requests_view(out@);
        let op = self.seats[j].op;
        let dx = self.seats[j].op_dx;
        let dy = self.seats[j].op_dy;
        match op {
            SeatOp::Move { window, start_x, start_y } => {
                if let Some(k) = find_window(&self.windows, window) {
                    self.windows[k].set_position(start_x.wrapping_add(dx), start_y.wrapping_add(dy), out);
                } else {
                    assert(requests_view(out@) =~= r0 + seq![]);
                }
            },
            SeatOp::Resize { window, start_x, start_y, start_width, start_height, edges } => {
                if let Some(k) = find_window(&self.windows, window) {
                    let mut x = start_x;
                    let mut y = start_y;
                    if edges.contains(Edges::left()) {
                        x = x.wrapping_add(start_width.wrapping_sub(self.windows[k].width));
                    }
                    if edges.contains(Edges::top()) {
                        y = y.wrapping_add(start_height.wrapping_sub(self.windows[k].height));
                    }
                    self.windows[k].set_position(x, y, out);
                } else {
                    assert(requests_view(out@) =~= r0 + seq![]);
                }
            },
            _ => {
                assert(requests_view(out@) =~= r0 + seq![]);
            },
        }
        assert(self@ =~= render_seat_step(old(self)@, j as int).wm);
    }

    /// Handles the start of a render sequence; see [`render_start_outcome`].
    pub fn handle_render_start(&mut self, out: &mut Vec<Request>)
        ensures
            final(self)@ == render_start_outcome(old(self)@).wm,
            requests_view(final(out)@) == requests_view(old(out)@) + render_start_outcome(
                old(self)@,
            ).requests,
    {
        let ghost r0 = requests_view(out@);
        let ghost wm0 = self@;
        let n = self.seats.len();
        let mut j: usize = 0;
        assert(r0 + seq![] =~= r0);
        while j < n
            invariant
                wm0 == old(self)@,
                n == wm0.seats.len(),
                j <= n,
                self.seats@.len() == n,
                render_prefix(wm0, j as nat).wm == self@,
                requests_view(out@) == r0 + render_prefix(wm0, j as nat).requests,
            decreases n - j,
        {
            let ghost p = render_prefix(wm0, j as nat);
            self.render_seat(j, out);
            assert(requests_view(out@) =~= r0 + (p.requests + render_seat_step(p.wm, j as int).requests));
            assert(seats_view(self.seats@).len() == self.seats@.len());
            j += 1;
        }
        emit(out, Request::RenderFinish);
        assert(requests_view(out@) =~= r0 + render_start_outcome(wm0).requests);
    }
}

} // verus!
