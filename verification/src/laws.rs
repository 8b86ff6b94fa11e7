//! Properties that relate several operations of the window manager.
use vstd::prelude::*;

use crate::dispatch::{
    global_action, GlobalAction, Interface, manager_event_outcome, ManagerEvent,
    pointer_binding_index, with_output, with_pointer_binding,
    add_pointer_binding_outcome, output_event_outcome, pointer_binding_event_outcome,
    seat_event_outcome, window_event_outcome, with_seat, OutputEvent, WindowEvent,
    add_xkb_binding_outcome, after_seat_event, xkb_binding_event_outcome,
    xkb_binding_index, with_xkb_binding, BindingEvent, SeatEvent,
};
use crate::keyed::{first_index, keys, lemma_first_index, lemma_push_absent};
use crate::request::RequestView;
use crate::state::{Edges, Output, PointerBinding, SeatView, Window, XkbBinding};
use crate::wm::actions::{rotated_left, rotated_right, Action, ActionView, SeatOp};
use crate::wm::{
    initialized_seats, initialized_windows, kept_outputs, kept_seats, manage_seats_prefix,
    manage_start_outcome, manage_windows_prefix, move_request_step, op_position, op_window,
    raise_interacted_step, raised_window, remove_windows_prefix, resize_request_step,
    seat_actions_step, seat_ids, seat_index,
    new_seat_requests, new_window_requests, output_index, render_seat_step, window_index,
    WmView,
};

verus! {

broadcast use vstd::seq_lib::group_to_multiset_ensures;

/// Moving the focus right, then left, puts the windows back in their order and
/// gives the focus back to the window that had it on top.
pub proof fn law_focus_right_then_left(s: SeatView, ws: Seq<Window>)
    requires
        ws.len() > 0,
        s.pending_action == ActionView::FocusRight,
    ensures
        s.do_action_outcome(ws) is Ok,
        ({
            let a = s.do_action_outcome(ws)->Ok_0;
            let b = SeatView { pending_action: ActionView::FocusLeft, ..a.seat }.do_action_outcome(
                a.windows,
            );
            &&& b is Ok
            &&& b->Ok_0.windows == ws
            &&& b->Ok_0.seat.focused == Some(ws.last().id)
        }),
{
    let r = rotated_left(ws);
    assert(rotated_right(r) =~= ws);
}

/// Moving the focus left, then right, puts the windows back in their order and
/// gives the focus back to the window that had it on top.
pub proof fn law_focus_left_then_right(s: SeatView, ws: Seq<Window>)
    requires
        ws.len() > 0,
        s.pending_action == ActionView::FocusLeft,
    ensures
        s.do_action_outcome(ws) is Ok,
        ({
            let a = s.do_action_outcome(ws)->Ok_0;
            let b = SeatView { pending_action: ActionView::FocusRight, ..a.seat }.do_action_outcome(
                a.windows,
            );
            &&& b is Ok
            &&& b->Ok_0.windows == ws
            &&& b->Ok_0.seat.focused == Some(ws.last().id)
        }),
{
    let r = rotated_right(ws);
    assert(rotated_left(r) =~= ws);
}

/// Moving the focus right gives it to the window that was at the bottom, and
/// moving it left gives it to the window just below the top one.
pub proof fn law_focus_moves_to_neighbour(s: SeatView, ws: Seq<Window>)
    requires
        ws.len() > 0,
    ensures
        (SeatView { pending_action: ActionView::FocusRight, ..s }).do_action_outcome(
            ws,
        )->Ok_0.seat.focused == Some(ws[0].id),
        (SeatView { pending_action: ActionView::FocusLeft, ..s }).do_action_outcome(
            ws,
        )->Ok_0.seat.focused == Some(
            if ws.len() > 1 {
                ws[ws.len() - 2].id
            } else {
                ws[0].id
            },
        ),
{
}

/// Taking the first element to the end keeps every element, once each.
pub proof fn lemma_rotate_left_multiset<A>(s: Seq<A>)
    requires
        s.len() > 0,
    ensures
        s.drop_first().push(s[0]).to_multiset() == s.to_multiset(),
{
    broadcast use vstd::seq_lib::to_multiset_build, vstd::seq_lib::to_multiset_remove;

    assert(s.drop_first() =~= s.remove(0));
    assert(s.drop_first().push(s[0]).to_multiset() =~= s.to_multiset());
}

/// Taking the last element to the front keeps every element, once each.
pub proof fn lemma_rotate_right_multiset<A>(s: Seq<A>)
    requires
        s.len() > 0,
    ensures
        (seq![s.last()] + s.drop_last()).to_multiset() == s.to_multiset(),
{
    broadcast use vstd::seq_lib::to_multiset_insert, vstd::seq_lib::to_multiset_remove;

    assert(s.drop_last() =~= s.remove(s.len() - 1));
    assert(seq![s.last()] + s.drop_last() =~= s.drop_last().insert(0, s.last()));
    assert((seq![s.last()] + s.drop_last()).to_multiset() =~= s.to_multiset());
}

/// Taking element `i` to the end keeps every element, once each.
pub proof fn lemma_raise_multiset<A>(s: Seq<A>, i: int)
    requires
        0 <= i < s.len(),
    ensures
        s.remove(i).push(s[i]).to_multiset() == s.to_multiset(),
{
    broadcast use vstd::seq_lib::to_multiset_build, vstd::seq_lib::to_multiset_remove;

    assert(s.remove(i).push(s[i]).to_multiset() =~= s.to_multiset());
}

/// Rotating the windows either way keeps every window, once each.
pub proof fn lemma_rotations_keep_windows(ws: Seq<Window>)
    requires
        ws.len() > 0,
    ensures
        rotated_left(ws).to_multiset() == ws.to_multiset(),
        rotated_right(ws).to_multiset() == ws.to_multiset(),
{
    lemma_rotate_left_multiset(ws);
    lemma_rotate_right_multiset(ws);
}

/// Carrying out any action keeps every window, once each: at most their order
/// changes.
pub proof fn law_actions_keep_windows(s: SeatView, ws: Seq<Window>)
    requires
        s.do_action_outcome(ws) is Ok,
    ensures
        s.do_action_outcome(ws)->Ok_0.windows.to_multiset() == ws.to_multiset(),
{
    if ws.len() > 0 {
        lemma_rotations_keep_windows(ws);
    }
}

/// A key binding recorded for a seat runs its action when pressed: the press
/// makes that action the seat's pending action.
pub proof fn law_pressed_binding_runs_its_action(
    wm: WmView,
    seat: u32,
    binding: u32,
    action: Action,
)
    requires
        add_xkb_binding_outcome(wm, seat, XkbBinding { id: binding, action }) is Ok,
    ensures
        ({
            let wm1 = add_xkb_binding_outcome(wm, seat, XkbBinding { id: binding, action })->Ok_0;
            let r = xkb_binding_event_outcome(wm1, seat, binding, BindingEvent::Pressed);
            &&& r is Ok
            &&& r->Ok_0.seats[seat_index(wm.seats, seat)->Some_0].pending_action == action@
        }),
{
    let b = XkbBinding { id: binding, action };
    let i = seat_index(wm.seats, seat)->Some_0;
    let wm1 = add_xkb_binding_outcome(wm, seat, b)->Ok_0;
    assert(seat_ids(wm1.seats) =~= seat_ids(wm.seats));
    let bs = wm.seats[i].xkb_bindings;
    let nbs = with_xkb_binding(bs, b);
    assert(wm1.seats[i].xkb_bindings == nbs);
    match xkb_binding_index(bs, binding) {
        Some(k) => {
            lemma_first_index(keys(bs), binding);
            assert(keys(nbs) =~= keys(bs));
        },
        None => {
            assert(keys(nbs) =~= keys(bs).push(binding));
            lemma_push_absent(keys(bs), binding, binding);
        },
    }
}

/// A pointer binding recorded for a seat runs its action when pressed: the
/// press makes that action the seat's pending action.
pub proof fn law_pressed_pointer_binding_runs_its_action(
    wm: WmView,
    seat: u32,
    binding: u32,
    action: Action,
)
    requires
        add_pointer_binding_outcome(wm, seat, PointerBinding { id: binding, action }) is Ok,
    ensures
        ({
            let wm1 = add_pointer_binding_outcome(
                wm,
                seat,
                PointerBinding { id: binding, action },
            )->Ok_0;
            let r = pointer_binding_event_outcome(wm1, seat, binding, BindingEvent::Pressed);
            &&& r is Ok
            &&& r->Ok_0.seats[seat_index(wm.seats, seat)->Some_0].pending_action == action@
        }),
{
    let b = PointerBinding { id: binding, action };
    let i = seat_index(wm.seats, seat)->Some_0;
    let wm1 = add_pointer_binding_outcome(wm, seat, b)->Ok_0;
    assert(seat_ids(wm1.seats) =~= seat_ids(wm.seats));
    let bs = wm.seats[i].pointer_bindings;
    let nbs = with_pointer_binding(bs, b);
    assert(wm1.seats[i].pointer_bindings == nbs);
    match pointer_binding_index(bs, binding) {
        Some(k) => {
            lemma_first_index(keys(bs), binding);
            assert(keys(nbs) =~= keys(bs));
        },
        None => {
            assert(keys(nbs) =~= keys(bs).push(binding));
            lemma_push_absent(keys(bs), binding, binding);
        },
    }
}

/// After a seat starts resizing window `w` by its bottom right corner and the
/// pointer travels `(dx, dy)`, the seat proposes the window's start size
/// grown by that travel.
pub proof fn law_resize_follows_pointer(s: SeatView, w: Window, dx: i32, dy: i32)
    ensures
        ({
            let s1 = s.after_pointer_resize(w, Edges::bottom_right());
            let s2 = after_seat_event(s1, SeatEvent::OpDelta { dx, dy });
            s2.op_manage_requests() == seq![
                RequestView::ProposeDimensions {
                    window: w.id,
                    width: w.width.wrapping_add(dx),
                    height: w.height.wrapping_add(dy),
                },
            ]
        }),
{
}

/// After a seat starts moving window `w` and the pointer travels `(dx, dy)`,
/// the render sequence puts the window at its start position moved by that
/// travel.
pub proof fn law_move_follows_pointer(s: SeatView, w: Window, dx: i32, dy: i32)
    ensures
        ({
            let s1 = s.after_pointer_move(w);
            let s2 = after_seat_event(s1, SeatEvent::OpDelta { dx, dy });
            op_position(s2, w) == (w.x.wrapping_add(dx), w.y.wrapping_add(dy))
        }),
{
}

/// A resize by the left edge keeps the right edge in place: whatever width the
/// window took, its new left edge plus that width is where the right edge was
/// when the resize started. Likewise for the top edge and the bottom edge.
pub proof fn law_resize_keeps_opposite_edge(s: SeatView, w: Window)
    requires
        s.op matches SeatOp::Resize { start_x, start_y, start_width, start_height, edges, .. },
    ensures
        ({
            let pos = op_position(s, w);
            match s.op {
                SeatOp::Resize { start_x, start_y, start_width, start_height, edges, .. } => {
                    &&& edges.left ==> pos.0.wrapping_add(w.width) == start_x.wrapping_add(
                        start_width,
                    )
                    &&& edges.top ==> pos.1.wrapping_add(w.height) == start_y.wrapping_add(
                        start_height,
                    )
                },
                _ => true,
            }
        }),
{
}

/// A window that a manage sequence has dealt with: it is open, placed, and
/// has no pointer request left.
pub open spec fn window_settled(w: Window) -> bool {
    &&& !w.closed
    &&& !w.new
    &&& w.pointer_move_requested is None
    &&& w.pointer_resize_requested is None
}

/// A seat that a manage sequence has dealt with: it is present, has its
/// bindings, no pending action, and no released pointer operation left.
pub open spec fn seat_settled(s: SeatView) -> bool {
    &&& !s.removed
    &&& !s.new
    &&& s.pending_action == ActionView::Nothing
    &&& !s.op_release
}

/// A state that a manage sequence has dealt with entirely.
pub open spec fn settled(wm: WmView) -> bool {
    &&& forall|k: int| 0 <= k < wm.outputs.len() ==> !(#[trigger] wm.outputs[k]).removed
    &&& forall|k: int| 0 <= k < wm.windows.len() ==> window_settled(#[trigger] wm.windows[k])
    &&& forall|k: int| 0 <= k < wm.seats.len() ==> seat_settled(#[trigger] wm.seats[k])
}

proof fn lemma_kept_outputs(outs: Seq<crate::state::Output>)
    ensures
        forall|k: int| 0 <= k < kept_outputs(outs).len() ==> !(#[trigger] kept_outputs(outs)[k]).removed,
    decreases outs.len(),
{
    if outs.len() > 0 {
        let prev = kept_outputs(outs.drop_last());
        lemma_kept_outputs(outs.drop_last());
        assert forall|k: int| 0 <= k < kept_outputs(outs).len() implies !(#[trigger] kept_outputs(
            outs,
        )[k]).removed by {
            if k < prev.len() {
                assert(kept_outputs(outs)[k] == prev[k]);
            }
        }
    }
}

proof fn lemma_kept_seats(seats: Seq<SeatView>)
    ensures
        forall|k: int| 0 <= k < kept_seats(seats).len() ==> !(#[trigger] kept_seats(seats)[k]).removed,
    decreases seats.len(),
{
    if seats.len() > 0 {
        lemma_kept_seats(seats.drop_last());
    }
}

proof fn lemma_remove_windows_open(wm: WmView, n: nat)
    ensures
        forall|k: int|
            0 <= k < remove_windows_prefix(wm, n).wm.windows.len() ==> !(
            #[trigger] remove_windows_prefix(wm, n).wm.windows[k]).closed,
    decreases n,
{
    if n > 0 {
        lemma_remove_windows_open(wm, (n - 1) as nat);
    }
}

/// Windows are open and placed, seats present with their bindings.
pub open spec fn prepared(wm: WmView) -> bool {
    &&& forall|k: int| 0 <= k < wm.windows.len() ==> !(#[trigger] wm.windows[k]).closed
        && !wm.windows[k].new
    &&& forall|k: int| 0 <= k < wm.seats.len() ==> !(#[trigger] wm.seats[k]).removed
        && !wm.seats[k].new
}

proof fn lemma_manage_windows_prefix(wm: WmView, n: nat)
    requires
        prepared(wm),
        n <= wm.windows.len(),
    ensures
        manage_windows_prefix(wm, n) matches Ok(p) ==> {
            &&& prepared(p.wm)
            &&& p.wm.windows.len() == wm.windows.len()
            &&& p.wm.seats.len() == wm.seats.len()
            &&& p.wm.outputs == wm.outputs
            &&& forall|k: int|
                0 <= k < n ==> (#[trigger] p.wm.windows[k]).pointer_move_requested is None
                    && p.wm.windows[k].pointer_resize_requested is None
            &&& forall|k: int| n <= k < wm.windows.len() ==> #[trigger] p.wm.windows[k] == wm.windows[k]
        },
    decreases n,
{
    if n > 0 {
        lemma_manage_windows_prefix(wm, (n - 1) as nat);
        if let Ok(p) = manage_windows_prefix(wm, (n - 1) as nat) {
            let i = n - 1;
            if let Ok(m) = move_request_step(p.wm, i) {
                assert(prepared(m.wm));
                if let Ok(q) = resize_request_step(m.wm, i) {
                    assert(prepared(q.wm));
                }
            }
        }
    }
}

proof fn lemma_raise_keeps_all(ws: Seq<Window>, i: int)
    requires
        0 <= i < ws.len(),
        forall|k: int| 0 <= k < ws.len() ==> window_settled(#[trigger] ws[k]),
    ensures
        raised_window(ws, i).len() == ws.len(),
        forall|k: int|
            0 <= k < raised_window(ws, i).len() ==> window_settled(#[trigger] raised_window(ws, i)[k]),
{
    let r = raised_window(ws, i);
    assert forall|k: int| 0 <= k < r.len() implies window_settled(#[trigger] r[k]) by {
        if k < i {
            assert(r[k] == ws[k]);
        } else if k < ws.len() - 1 {
            assert(r[k] == ws[k + 1]);
        } else {
            assert(r[k] == ws[i]);
        }
    }
}

proof fn lemma_action_keeps_all(s: SeatView, ws: Seq<Window>)
    requires
        s.do_action_outcome(ws) is Ok,
        forall|k: int| 0 <= k < ws.len() ==> window_settled(#[trigger] ws[k]),
    ensures
        ({
            let st = s.do_action_outcome(ws)->Ok_0;
            &&& st.windows.len() == ws.len()
            &&& forall|k: int| 0 <= k < st.windows.len() ==> window_settled(#[trigger] st.windows[k])
            &&& st.seat.pending_action == ActionView::Nothing
            &&& st.seat.removed == s.removed
            &&& st.seat.new == s.new
            &&& st.seat.op_release == s.op_release
        }),
{
    let st = s.do_action_outcome(ws)->Ok_0;
    if ws.len() > 0 {
        let l = rotated_left(ws);
        assert forall|k: int| 0 <= k < l.len() implies window_settled(#[trigger] l[k]) by {
            if k < ws.len() - 1 {
                assert(l[k] == ws[k + 1]);
            }
        }
        let r = rotated_right(ws);
        assert forall|k: int| 0 <= k < r.len() implies window_settled(#[trigger] r[k]) by {
            if k > 0 {
                assert(r[k] == ws[k - 1]);
            }
        }
    }
}

proof fn lemma_manage_seats_prefix(wm: WmView, n: nat)
    requires
        forall|k: int| 0 <= k < wm.windows.len() ==> window_settled(#[trigger] wm.windows[k]),
        forall|k: int| 0 <= k < wm.seats.len() ==> !(#[trigger] wm.seats[k]).removed
            && !wm.seats[k].new,
        n <= wm.seats.len(),
    ensures
        manage_seats_prefix(wm, n) matches Ok(p) ==> {
            &&& p.wm.seats.len() == wm.seats.len()
            &&& p.wm.outputs == wm.outputs
            &&& forall|k: int| 0 <= k < p.wm.windows.len() ==> window_settled(#[trigger] p.wm.windows[k])
            &&& forall|k: int| 0 <= k < n ==> seat_settled(#[trigger] p.wm.seats[k])
            &&& forall|k: int| n <= k < wm.seats.len() ==> #[trigger] p.wm.seats[k] == wm.seats[k]
        },
    decreases n,
{
    if n > 0 {
        lemma_manage_seats_prefix(wm, (n - 1) as nat);
        if let Ok(p) = manage_seats_prefix(wm, (n - 1) as nat) {
            let j = n - 1;
            if let Ok(w1) = raise_interacted_step(p.wm, j) {
                if let Some(w) = p.wm.seats[j].interacted {
                    if let Some(i) = crate::wm::window_index(p.wm.windows, w) {
                        lemma_raise_keeps_all(p.wm.windows, i);
                    }
                }
                let s = w1.seats[j];
                let s1 = s.after_focus_top(w1.windows);
                if s1.do_action_outcome(w1.windows) is Ok {
                    lemma_action_keeps_all(s1, w1.windows);
                }
            }
        }
    }
}

/// A manage sequence that succeeds leaves a settled state: no removed output,
/// only open, placed windows without pending pointer requests, and seats that
/// are present, have their bindings, and have carried out their pending
/// action and released operation. Its last request declares it finished.
pub proof fn law_manage_start_settles(wm: WmView)
    requires
        manage_start_outcome(wm) is Ok,
    ensures
        settled(manage_start_outcome(wm)->Ok_0.wm),
        manage_start_outcome(wm)->Ok_0.requests.last() == RequestView::ManageFinish,
{
    let wm1 = WmView { outputs: kept_outputs(wm.outputs), ..wm };
    let rw = remove_windows_prefix(wm1, wm1.windows.len());
    let wm3 = WmView { seats: kept_seats(rw.wm.seats), ..rw.wm };
    let wm4 = WmView { windows: initialized_windows(wm3.windows), ..wm3 };
    let wm5 = WmView { seats: initialized_seats(wm4.seats), ..wm4 };
    lemma_kept_outputs(wm.outputs);
    lemma_remove_windows_open(wm1, wm1.windows.len());
    lemma_kept_seats(rw.wm.seats);
    assert(rw.wm.outputs == wm1.outputs) by {
        lemma_remove_windows_keeps_outputs(wm1, wm1.windows.len());
    }
    assert(prepared(wm5));
    lemma_manage_windows_prefix(wm5, wm5.windows.len());
    let p6 = manage_windows_prefix(wm5, wm5.windows.len())->Ok_0;
    lemma_manage_seats_prefix(p6.wm, p6.wm.seats.len());
}

proof fn lemma_remove_windows_keeps_outputs(wm: WmView, n: nat)
    ensures
        remove_windows_prefix(wm, n).wm.outputs == wm.outputs,
    decreases n,
{
    if n > 0 {
        lemma_remove_windows_keeps_outputs(wm, (n - 1) as nat);
    }
}

/// The ids of the windows, in order.
pub open spec fn window_ids(ws: Seq<Window>) -> Seq<u32> {
    ws.map_values(|w: Window| w.id)
}

/// The windows that are not closed, in order.
pub open spec fn open_windows(ws: Seq<Window>) -> Seq<Window>
    decreases ws.len(),
{
    if ws.len() == 0 {
        seq![]
    } else {
        let kept = open_windows(ws.drop_last());
        if ws.last().closed {
            kept
        } else {
            kept.push(ws.last())
        }
    }
}

proof fn lemma_remove_windows_are_open(wm: WmView, n: nat)
    requires
        n <= wm.windows.len(),
    ensures
        remove_windows_prefix(wm, n).wm.windows == open_windows(wm.windows.take(n as int)),
    decreases n,
{
    if n > 0 {
        lemma_remove_windows_are_open(wm, (n - 1) as nat);
        assert(wm.windows.take(n as int).drop_last() =~= wm.windows.take(n - 1));
    }
}

proof fn lemma_manage_windows_keep_ids(wm: WmView, n: nat)
    requires
        n <= wm.windows.len(),
    ensures
        manage_windows_prefix(wm, n) matches Ok(p) ==> window_ids(p.wm.windows) == window_ids(
            wm.windows,
        ),
    decreases n,
{
    if n > 0 {
        lemma_manage_windows_keep_ids(wm, (n - 1) as nat);
        if let Ok(p) = manage_windows_prefix(wm, (n - 1) as nat) {
            let i = n - 1;
            assert(window_ids(p.wm.windows).len() == window_ids(wm.windows).len());
            if let Ok(m) = move_request_step(p.wm, i) {
                assert(window_ids(m.wm.windows) =~= window_ids(p.wm.windows));
                if let Ok(q) = resize_request_step(m.wm, i) {
                    assert(window_ids(q.wm.windows) =~= window_ids(m.wm.windows));
                }
            }
        }
    }
}

proof fn lemma_action_keeps_ids(s: SeatView, ws: Seq<Window>)
    requires
        s.do_action_outcome(ws) is Ok,
    ensures
        window_ids(s.do_action_outcome(ws)->Ok_0.windows).to_multiset() == window_ids(
            ws,
        ).to_multiset(),
{
    let ids = window_ids(ws);
    if ws.len() > 0 {
        assert(window_ids(rotated_left(ws)) =~= ids.drop_first().push(ids[0]));
        lemma_rotate_left_multiset(ids);
        assert(window_ids(rotated_right(ws)) =~= seq![ids.last()] + ids.drop_last());
        lemma_rotate_right_multiset(ids);
    }
}

proof fn lemma_manage_seats_keep_ids(wm: WmView, n: nat)
    requires
        n <= wm.seats.len(),
    ensures
        manage_seats_prefix(wm, n) matches Ok(p) ==> {
            &&& window_ids(p.wm.windows).to_multiset() == window_ids(wm.windows).to_multiset()
            &&& p.wm.seats.len() == wm.seats.len()
        },
    decreases n,
{
    if n > 0 {
        lemma_manage_seats_keep_ids(wm, (n - 1) as nat);
        if let Ok(p) = manage_seats_prefix(wm, (n - 1) as nat) {
            let j = n - 1;
            if let Ok(w1) = raise_interacted_step(p.wm, j) {
                if let Some(w) = p.wm.seats[j].interacted {
                    if let Some(i) = crate::wm::window_index(p.wm.windows, w) {
                        let ids = window_ids(p.wm.windows);
                        assert(window_ids(raised_window(p.wm.windows, i)) =~= ids.remove(i).push(
                            ids[i],
                        ));
                        lemma_raise_multiset(ids, i);
                    }
                }
                let s1 = w1.seats[j].after_focus_top(w1.windows);
                if s1.do_action_outcome(w1.windows) is Ok {
                    lemma_action_keeps_ids(s1, w1.windows);
                }
            }
        }
    }
}

/// A manage sequence that succeeds keeps exactly the windows that were not
/// closed: each of them once, and no other, though their order may change.
pub proof fn law_manage_start_keeps_open_windows(wm: WmView)
    requires
        manage_start_outcome(wm) is Ok,
    ensures
        window_ids(manage_start_outcome(wm)->Ok_0.wm.windows).to_multiset() == window_ids(
            open_windows(wm.windows),
        ).to_multiset(),
{
    let wm1 = WmView { outputs: kept_outputs(wm.outputs), ..wm };
    let rw = remove_windows_prefix(wm1, wm1.windows.len());
    let wm3 = WmView { seats: kept_seats(rw.wm.seats), ..rw.wm };
    let wm4 = WmView { windows: initialized_windows(wm3.windows), ..wm3 };
    let wm5 = WmView { seats: initialized_seats(wm4.seats), ..wm4 };
    lemma_remove_windows_are_open(wm1, wm1.windows.len());
    assert(wm.windows.take(wm.windows.len() as int) =~= wm.windows);
    assert(window_ids(wm5.windows) =~= window_ids(rw.wm.windows));
    lemma_manage_windows_keep_ids(wm5, wm5.windows.len());
    let p6 = manage_windows_prefix(wm5, wm5.windows.len())->Ok_0;
    lemma_manage_seats_keep_ids(p6.wm, p6.wm.seats.len());
}

/// A render sequence only moves windows: outputs, seats, and every other
/// property of the windows and their order stay as they were; its last
/// request declares it finished.
pub proof fn law_render_only_moves_windows(wm: WmView)
    ensures
        ({
            let r = crate::wm::render_start_outcome(wm);
            &&& r.wm.outputs == wm.outputs
            &&& r.wm.seats == wm.seats
            &&& r.wm.windows.len() == wm.windows.len()
            &&& forall|k: int|
                0 <= k < wm.windows.len() ==> #[trigger] r.wm.windows[k] == (Window {
                    x: r.wm.windows[k].x,
                    y: r.wm.windows[k].y,
                    ..wm.windows[k]
                })
            &&& r.requests.last() == RequestView::RenderFinish
        }),
{
    lemma_render_prefix(wm, wm.seats.len());
}

proof fn lemma_render_prefix(wm: WmView, n: nat)
    ensures
        ({
            let r = crate::wm::render_prefix(wm, n);
            &&& r.wm.outputs == wm.outputs
            &&& r.wm.seats == wm.seats
            &&& r.wm.windows.len() == wm.windows.len()
            &&& forall|k: int|
                0 <= k < wm.windows.len() ==> #[trigger] r.wm.windows[k] == (Window {
                    x: r.wm.windows[k].x,
                    y: r.wm.windows[k].y,
                    ..wm.windows[k]
                })
        }),
    decreases n,
{
    if n > 0 {
        lemma_render_prefix(wm, (n - 1) as nat);
    }
}

/// Every move or resize operation of a seat is on a window that is there.
pub open spec fn ops_on_present_windows(wm: WmView) -> bool {
    forall|j: int|
        0 <= j < wm.seats.len() && (#[trigger] op_window(wm.seats[j].op)) is Some ==> window_ids(
            wm.windows,
        ).contains(op_window(wm.seats[j].op)->Some_0)
}

proof fn lemma_ids_push(ws: Seq<Window>, w: Window)
    ensures
        window_ids(ws.push(w)) == window_ids(ws).push(w.id),
{
    assert(window_ids(ws.push(w)) =~= window_ids(ws).push(w.id));
}

proof fn lemma_remove_windows_ops(wm: WmView, n: nat)
    requires
        ops_on_present_windows(wm),
        n <= wm.windows.len(),
    ensures
        ({
            let r = remove_windows_prefix(wm, n).wm;
            &&& r.seats.len() == wm.seats.len()
            &&& forall|j: int|
                0 <= j < r.seats.len() && (#[trigger] op_window(r.seats[j].op)) is Some ==> {
                    let w = op_window(r.seats[j].op)->Some_0;
                    ||| window_ids(r.windows).contains(w)
                    ||| exists|k: int| n <= k < wm.windows.len() && wm.windows[k].id == w
                }
        }),
    decreases n,
{
    let r = remove_windows_prefix(wm, n).wm;
    if n == 0 {
        assert forall|j: int|
            0 <= j < r.seats.len() && (#[trigger] op_window(r.seats[j].op)) is Some implies {
            let w = op_window(r.seats[j].op)->Some_0;
            ||| window_ids(r.windows).contains(w)
            ||| exists|k: int| n <= k < wm.windows.len() && wm.windows[k].id == w
        } by {
            let w = op_window(r.seats[j].op)->Some_0;
            assert(op_window(wm.seats[j].op) is Some);
            let k = choose|k: int| 0 <= k < window_ids(wm.windows).len() && window_ids(wm.windows)[k] == w;
            assert(wm.windows[k].id == w);
        }
    } else {
        lemma_remove_windows_ops(wm, (n - 1) as nat);
        let prev = remove_windows_prefix(wm, (n - 1) as nat).wm;
        let wc = wm.windows[n - 1];
        if !wc.closed {
            lemma_ids_push(prev.windows, wc);
        }
        assert forall|j: int|
            0 <= j < r.seats.len() && (#[trigger] op_window(r.seats[j].op)) is Some implies {
            let w = op_window(r.seats[j].op)->Some_0;
            ||| window_ids(r.windows).contains(w)
            ||| exists|k: int| n <= k < wm.windows.len() && wm.windows[k].id == w
        } by {
            let w = op_window(r.seats[j].op)->Some_0;
            if wc.closed {
                assert(r.seats[j] == crate::wm::end_op_on(prev.seats[j], wc.id));
                assert(op_window(prev.seats[j].op) == Some(w));
                assert(w != wc.id);
            } else {
                assert(r.seats[j] == prev.seats[j]);
                if !window_ids(prev.windows).contains(w) {
                    let k = choose|k: int| n - 1 <= k < wm.windows.len() && wm.windows[k].id == w;
                    if k == n - 1 {
                        assert(window_ids(r.windows)[prev.windows.len() as int] == w);
                    }
                } else {
                    let k = choose|k: int| 0 <= k < window_ids(prev.windows).len() && window_ids(prev.windows)[k] == w;
                    assert(window_ids(r.windows)[k] == w);
                }
            }
        }
    }
}

proof fn lemma_kept_seats_from(seats: Seq<SeatView>)
    ensures
        forall|k: int|
            0 <= k < kept_seats(seats).len() ==> exists|j: int|
                0 <= j < seats.len() && #[trigger] kept_seats(seats)[k] == seats[j],
    decreases seats.len(),
{
    if seats.len() > 0 {
        let prev = kept_seats(seats.drop_last());
        lemma_kept_seats_from(seats.drop_last());
        assert forall|k: int| 0 <= k < kept_seats(seats).len() implies exists|j: int|
            0 <= j < seats.len() && #[trigger] kept_seats(seats)[k] == seats[j] by {
            if k < prev.len() {
                let j = choose|j: int|
                    0 <= j < seats.drop_last().len() && #[trigger] prev[k] == seats.drop_last()[j];
                assert(kept_seats(seats)[k] == seats[j]);
            } else {
                assert(kept_seats(seats)[k] == seats[seats.len() - 1]);
            }
        }
    }
}

proof fn lemma_manage_windows_ops(wm: WmView, n: nat)
    requires
        ops_on_present_windows(wm),
        n <= wm.windows.len(),
    ensures
        manage_windows_prefix(wm, n) matches Ok(p) ==> ops_on_present_windows(p.wm) && window_ids(
            p.wm.windows,
        ) == window_ids(wm.windows),
    decreases n,
{
    if n > 0 {
        lemma_manage_windows_ops(wm, (n - 1) as nat);
        if let Ok(p) = manage_windows_prefix(wm, (n - 1) as nat) {
            let i = n - 1;
            assert(window_ids(p.wm.windows).len() == window_ids(wm.windows).len());
            assert(window_ids(p.wm.windows)[i] == p.wm.windows[i].id);
            if let Ok(m) = move_request_step(p.wm, i) {
                assert(window_ids(m.wm.windows) =~= window_ids(p.wm.windows));
                assert(ops_on_present_windows(m.wm)) by {
                    assert forall|j: int|
                        0 <= j < m.wm.seats.len() && (#[trigger] op_window(m.wm.seats[j].op)) is Some implies window_ids(
                        m.wm.windows,
                    ).contains(op_window(m.wm.seats[j].op)->Some_0) by {
                        assert(op_window(p.wm.seats[j].op) is Some || window_ids(m.wm.windows)[i]
                            == op_window(m.wm.seats[j].op)->Some_0);
                    }
                }
                if let Ok(q) = resize_request_step(m.wm, i) {
                    assert(window_ids(q.wm.windows) =~= window_ids(m.wm.windows));
                    assert(ops_on_present_windows(q.wm)) by {
                        assert forall|j: int|
                            0 <= j < q.wm.seats.len() && (#[trigger] op_window(q.wm.seats[j].op)) is Some implies window_ids(
                            q.wm.windows,
                        ).contains(op_window(q.wm.seats[j].op)->Some_0) by {
                            assert(op_window(m.wm.seats[j].op) is Some || window_ids(q.wm.windows)[i]
                                == op_window(q.wm.seats[j].op)->Some_0);
                        }
                    }
                }
            }
        }
    }
}

proof fn lemma_same_ids(a: Seq<Window>, b: Seq<Window>, w: u32)
    requires
        window_ids(a).to_multiset() == window_ids(b).to_multiset(),
    ensures
        window_ids(a).contains(w) == window_ids(b).contains(w),
{
    let ia = window_ids(a);
    let ib = window_ids(b);
    ia.to_multiset_ensures();
    ib.to_multiset_ensures();
    assert(ia.contains(w) <==> ia.to_multiset().count(w) > 0);
    assert(ib.contains(w) <==> ib.to_multiset().count(w) > 0);
}

proof fn lemma_manage_seats_ops(wm: WmView, n: nat)
    requires
        ops_on_present_windows(wm),
        n <= wm.seats.len(),
    ensures
        manage_seats_prefix(wm, n) matches Ok(p) ==> ops_on_present_windows(p.wm)
            && p.wm.seats.len() == wm.seats.len(),
    decreases n,
{
    if n > 0 {
        lemma_manage_seats_ops(wm, (n - 1) as nat);
        if let Ok(p) = manage_seats_prefix(wm, (n - 1) as nat) {
            let j = n - 1;
            if let Ok(w1) = raise_interacted_step(p.wm, j) {
                assert(window_ids(w1.windows).to_multiset() == window_ids(p.wm.windows).to_multiset()) by {
                    if let Some(w) = p.wm.seats[j].interacted {
                        if let Some(i) = crate::wm::window_index(p.wm.windows, w) {
                            let ids = window_ids(p.wm.windows);
                            assert(window_ids(raised_window(p.wm.windows, i)) =~= ids.remove(i).push(ids[i]));
                            lemma_raise_multiset(ids, i);
                        }
                    }
                }
                assert(ops_on_present_windows(w1)) by {
                    assert forall|k: int|
                        0 <= k < w1.seats.len() && (#[trigger] op_window(w1.seats[k].op)) is Some implies window_ids(
                        w1.windows,
                    ).contains(op_window(w1.seats[k].op)->Some_0) by {
                        assert(op_window(p.wm.seats[k].op) == op_window(w1.seats[k].op));
                        lemma_same_ids(w1.windows, p.wm.windows, op_window(w1.seats[k].op)->Some_0);
                    }
                }
                let s1 = w1.seats[j].after_focus_top(w1.windows);
                if let Ok(st) = s1.do_action_outcome(w1.windows) {
                    lemma_action_keeps_ids(s1, w1.windows);
                    let q = seat_actions_step(w1, j)->Ok_0;
                    assert(q.wm.windows == st.windows);
                    assert forall|k: int|
                        0 <= k < q.wm.seats.len() && (#[trigger] op_window(q.wm.seats[k].op)) is Some implies window_ids(
                        q.wm.windows,
                    ).contains(op_window(q.wm.seats[k].op)->Some_0) by {
                        let w = op_window(q.wm.seats[k].op)->Some_0;
                        if k == j {
                            let sj = crate::wm::after_op_step(st.seat);
                            assert(q.wm.seats[k] == sj);
                            if op_window(s1.op) == op_window(st.seat.op) {
                                lemma_same_ids(st.windows, w1.windows, w);
                            } else {
                                let i = crate::wm::window_index(w1.windows, s1.hovered->Some_0)->Some_0;
                                assert(w == w1.windows[i].id);
                                assert(window_ids(w1.windows)[i] == w);
                                lemma_same_ids(st.windows, w1.windows, w);
                            }
                        } else {
                            assert(q.wm.seats[k] == w1.seats[k]);
                            lemma_same_ids(st.windows, w1.windows, w);
                        }
                    }
                }
            }
        }
    }
}

/// A manage sequence never leaves a seat moving or resizing a window that is
/// gone: if every operation was on a window that is there before it, the
/// same holds after it.
pub proof fn law_manage_start_keeps_ops_on_present_windows(wm: WmView)
    requires
        ops_on_present_windows(wm),
        manage_start_outcome(wm) is Ok,
    ensures
        ops_on_present_windows(manage_start_outcome(wm)->Ok_0.wm),
{
    let wm1 = WmView { outputs: kept_outputs(wm.outputs), ..wm };
    let rw = remove_windows_prefix(wm1, wm1.windows.len());
    let wm3 = WmView { seats: kept_seats(rw.wm.seats), ..rw.wm };
    let wm4 = WmView { windows: initialized_windows(wm3.windows), ..wm3 };
    let wm5 = WmView { seats: initialized_seats(wm4.seats), ..wm4 };
    lemma_remove_windows_ops(wm1, wm1.windows.len());
    lemma_kept_seats_from(rw.wm.seats);
    assert(window_ids(wm5.windows) =~= window_ids(rw.wm.windows));
    assert(ops_on_present_windows(wm5)) by {
        assert forall|j: int|
            0 <= j < wm5.seats.len() && (#[trigger] op_window(wm5.seats[j].op)) is Some implies window_ids(
            wm5.windows,
        ).contains(op_window(wm5.seats[j].op)->Some_0) by {
            let k = choose|k: int|
                0 <= k < rw.wm.seats.len() && #[trigger] kept_seats(rw.wm.seats)[j] == rw.wm.seats[k];
            assert(op_window(rw.wm.seats[k].op) == op_window(wm5.seats[j].op));
        }
    }
    lemma_manage_windows_ops(wm5, wm5.windows.len());
    let p6 = manage_windows_prefix(wm5, wm5.windows.len())->Ok_0;
    lemma_manage_seats_ops(p6.wm, p6.wm.seats.len());
}

proof fn lemma_same_windows_and_ops(a: WmView, b: WmView)
    requires
        ops_on_present_windows(a),
        window_ids(a.windows) == window_ids(b.windows),
        a.seats.len() == b.seats.len(),
        forall|j: int| 0 <= j < a.seats.len() ==> #[trigger] b.seats[j].op == a.seats[j].op,
    ensures
        ops_on_present_windows(b),
{
    assert forall|j: int|
        0 <= j < b.seats.len() && (#[trigger] op_window(b.seats[j].op)) is Some implies window_ids(
        b.windows,
    ).contains(op_window(b.seats[j].op)->Some_0) by {
        assert(op_window(a.seats[j].op) == op_window(b.seats[j].op));
    }
}

/// No event leaves a seat moving or resizing a window that is gone: window,
/// output, seat and binding events, newly announced objects, recorded bindings
/// and render sequences all keep every operation on a window that is there.
pub proof fn law_events_keep_ops_on_present_windows(
    wm: WmView,
    id: u32,
    binding: u32,
    we: WindowEvent,
    oe: OutputEvent,
    se: SeatEvent,
    be: BindingEvent,
    action: Action,
)
    requires
        ops_on_present_windows(wm),
    ensures
        ops_on_present_windows(window_event_outcome(wm, id, we)),
        output_event_outcome(wm, id, oe) matches Ok(r) ==> ops_on_present_windows(r),
        seat_event_outcome(wm, id, se) matches Ok(r) ==> ops_on_present_windows(r),
        xkb_binding_event_outcome(wm, id, binding, be) matches Ok(r) ==> ops_on_present_windows(r),
        pointer_binding_event_outcome(wm, id, binding, be) matches Ok(r) ==> ops_on_present_windows(
            r,
        ),
        add_xkb_binding_outcome(wm, id, XkbBinding { id: binding, action }) matches Ok(r)
            ==> ops_on_present_windows(r),
        add_pointer_binding_outcome(wm, id, PointerBinding { id: binding, action }) matches Ok(r)
            ==> ops_on_present_windows(r),
        ops_on_present_windows(
            WmView { windows: wm.windows.push(Window::spec_new(id, 0, 0)), ..wm },
        ),
        ops_on_present_windows(WmView { seats: with_seat(wm.seats, id), ..wm }),
        ops_on_present_windows(crate::wm::render_start_outcome(wm).wm),
{
    let r = window_event_outcome(wm, id, we);
    if let Some(i) = crate::wm::window_index(wm.windows, id) {
        assert(window_ids(r.windows) =~= window_ids(wm.windows));
    }
    lemma_same_windows_and_ops(wm, r);
    if let Ok(r) = output_event_outcome(wm, id, oe) {
        lemma_same_windows_and_ops(wm, r);
    }
    if let Ok(r) = seat_event_outcome(wm, id, se) {
        lemma_same_windows_and_ops(wm, r);
    }
    if let Ok(r) = xkb_binding_event_outcome(wm, id, binding, be) {
        lemma_same_windows_and_ops(wm, r);
    }
    if let Ok(r) = pointer_binding_event_outcome(wm, id, binding, be) {
        lemma_same_windows_and_ops(wm, r);
    }
    if let Ok(r) = add_xkb_binding_outcome(wm, id, XkbBinding { id: binding, action }) {
        lemma_same_windows_and_ops(wm, r);
    }
    if let Ok(r) = add_pointer_binding_outcome(wm, id, PointerBinding { id: binding, action }) {
        lemma_same_windows_and_ops(wm, r);
    }
    let added = WmView { windows: wm.windows.push(Window::spec_new(id, 0, 0)), ..wm };
    lemma_ids_push(wm.windows, Window::spec_new(id, 0, 0));
    assert forall|j: int|
        0 <= j < added.seats.len() && (#[trigger] op_window(added.seats[j].op)) is Some implies window_ids(
        added.windows,
    ).contains(op_window(added.seats[j].op)->Some_0) by {
        let w = op_window(added.seats[j].op)->Some_0;
        assert(op_window(wm.seats[j].op) is Some);
        let k = choose|k: int| 0 <= k < window_ids(wm.windows).len() && window_ids(wm.windows)[k] == w;
        assert(window_ids(added.windows)[k] == w);
    }
    let seated = WmView { seats: with_seat(wm.seats, id), ..wm };
    assert forall|j: int|
        0 <= j < seated.seats.len() && (#[trigger] op_window(seated.seats[j].op)) is Some implies window_ids(
        seated.windows,
    ).contains(op_window(seated.seats[j].op)->Some_0) by {
        assert(op_window(wm.seats[j].op) == op_window(seated.seats[j].op));
    }
    let rendered = crate::wm::render_start_outcome(wm).wm;
    law_render_only_moves_windows(wm);
    assert forall|k: int| 0 <= k < rendered.windows.len() implies rendered.windows[k].id
        == wm.windows[k].id by {
        assert(rendered.windows[k] == (Window {
            x: rendered.windows[k].x,
            y: rendered.windows[k].y,
            ..wm.windows[k]
        }));
    }
    assert(window_ids(rendered.windows) =~= window_ids(wm.windows));
    lemma_same_windows_and_ops(wm, rendered);
}

proof fn lemma_push_keeps_no_duplicates(ids: Seq<u32>, id: u32)
    requires
        ids.no_duplicates(),
        first_index(ids, id) is None,
    ensures
        ids.push(id).no_duplicates(),
{
    lemma_first_index(ids, id);
    let r = ids.push(id);
    assert forall|i: int, j: int| 0 <= i < r.len() && 0 <= j < r.len() && i != j implies r[i]
        != r[j] by {
        if i < ids.len() && j < ids.len() {
            assert(r[i] == ids[i] && r[j] == ids[j]);
        } else if i < ids.len() {
            assert(ids[i] != id);
        } else {
            assert(ids[j] != id);
        }
    }
}

/// Announcing output `id` acts as an insertion into a map keyed by id: looking
/// `id` up finds the fresh output, looking any other id up finds what it found
/// before, entries of other ids stay where they were, and if no id occurred
/// twice before, none does after.
pub proof fn law_output_announcement_is_map_insert(outputs: Seq<Output>, id: u32, other: u32)
    ensures
        ({
            let r = with_output(outputs, id);
            &&& output_index(r, id) matches Some(k) && r[k] == (Output { id, removed: false })
            &&& other != id ==> output_index(r, other) == output_index(outputs, other)
            &&& forall|j: int| 0 <= j < outputs.len() && outputs[j].id != id ==> #[trigger] r[j] == outputs[j]
            &&& forall|j: int| 0 <= j < r.len() && (#[trigger] r[j]).id != id ==> j < outputs.len()
            &&& keys(outputs).no_duplicates() ==> keys(r).no_duplicates()
        }),
{
    let r = with_output(outputs, id);
    let ids = keys(outputs);
    lemma_first_index(ids, id);
    match output_index(outputs, id) {
        Some(i) => {
            assert(keys(r) =~= ids);
            lemma_first_index(ids, id);
        },
        None => {
            assert(keys(r) =~= ids.push(id));
            lemma_push_absent(ids, id, other);
            if ids.no_duplicates() {
                lemma_push_keeps_no_duplicates(ids, id);
            }
        },
    }
}

/// Announcing seat `id` acts as an insertion into a map keyed by id: looking
/// `id` up finds a fresh seat, looking any other id up finds what it found
/// before, entries of other ids stay where they were, and if no id occurred
/// twice before, none does after.
pub proof fn law_seat_announcement_is_map_insert(seats: Seq<SeatView>, id: u32, other: u32)
    ensures
        ({
            let r = with_seat(seats, id);
            &&& seat_index(r, id) matches Some(k) && r[k] == SeatView::fresh(id)
            &&& other != id ==> seat_index(r, other) == seat_index(seats, other)
            &&& forall|j: int| 0 <= j < seats.len() && seats[j].id != id ==> #[trigger] r[j] == seats[j]
            &&& forall|j: int| 0 <= j < r.len() && (#[trigger] r[j]).id != id ==> j < seats.len()
            &&& seat_ids(seats).no_duplicates() ==> seat_ids(r).no_duplicates()
        }),
{
    let r = with_seat(seats, id);
    let ids = seat_ids(seats);
    lemma_first_index(ids, id);
    match seat_index(seats, id) {
        Some(i) => {
            assert(seat_ids(r) =~= ids);
        },
        None => {
            assert(seat_ids(r) =~= ids.push(id));
            lemma_push_absent(ids, id, other);
            if ids.no_duplicates() {
                lemma_push_keeps_no_duplicates(ids, id);
            }
        },
    }
}

proof fn lemma_new_seat_requests_of_initialized(seats: Seq<SeatView>)
    ensures
        new_seat_requests(initialized_seats(seats)) == Seq::<RequestView>::empty(),
    decreases seats.len(),
{
    if seats.len() > 0 {
        assert(initialized_seats(seats).drop_last() =~= initialized_seats(seats.drop_last()));
        lemma_new_seat_requests_of_initialized(seats.drop_last());
        assert(new_seat_requests(initialized_seats(seats)) =~= Seq::<RequestView>::empty());
    }
}

proof fn lemma_new_window_requests_of_initialized(ws: Seq<Window>)
    ensures
        new_window_requests(initialized_windows(ws)) == Seq::<RequestView>::empty(),
    decreases ws.len(),
{
    if ws.len() > 0 {
        assert(initialized_windows(ws).drop_last() =~= initialized_windows(ws.drop_last()));
        lemma_new_window_requests_of_initialized(ws.drop_last());
        assert(new_window_requests(initialized_windows(ws)) =~= Seq::<RequestView>::empty());
    }
}

/// Creating the bindings of new seats is done once: it marks every seat as
/// no longer new, leaves seats that were not new as they were and keeps the
/// seats' ids; doing it again changes nothing and creates no binding.
pub proof fn law_seat_initialization_is_idempotent(seats: Seq<SeatView>)
    ensures
        ({
            let once = initialized_seats(seats);
            &&& once.len() == seats.len()
            &&& seat_ids(once) == seat_ids(seats)
            &&& forall|k: int| 0 <= k < seats.len() ==> !(#[trigger] once[k]).new
            &&& forall|k: int| 0 <= k < seats.len() && !seats[k].new ==> #[trigger] once[k] == seats[k]
            &&& initialized_seats(once) == once
            &&& new_seat_requests(once) == Seq::<RequestView>::empty()
        }),
{
    let once = initialized_seats(seats);
    assert(seat_ids(once) =~= seat_ids(seats));
    assert(initialized_seats(once) =~= once);
    lemma_new_seat_requests_of_initialized(seats);
}

/// Placing new windows is done once: it marks every window as no longer new,
/// leaves windows that were not new as they were and keeps their ids; doing it
/// again changes nothing and sends no request.
pub proof fn law_window_initialization_is_idempotent(ws: Seq<Window>)
    ensures
        ({
            let once = initialized_windows(ws);
            &&& once.len() == ws.len()
            &&& keys(once) == keys(ws)
            &&& forall|k: int| 0 <= k < ws.len() ==> !(#[trigger] once[k]).new
            &&& forall|k: int| 0 <= k < ws.len() && !ws[k].new ==> #[trigger] once[k] == ws[k]
            &&& initialized_windows(once) == once
            &&& new_window_requests(once) == Seq::<RequestView>::empty()
        }),
{
    let once = initialized_windows(ws);
    assert(keys(once) =~= keys(ws));
    assert(initialized_windows(once) =~= once);
    lemma_new_window_requests_of_initialized(ws);
}

/// The outputs that a manage sequence keeps are exactly those not removed.
pub proof fn lemma_kept_outputs_is_filter(outputs: Seq<Output>)
    ensures
        kept_outputs(outputs) == outputs.filter(|o: Output| !o.removed),
    decreases outputs.len(),
{
    reveal(Seq::filter);
    if outputs.len() > 0 {
        lemma_kept_outputs_is_filter(outputs.drop_last());
    }
}

/// The seats that a manage sequence keeps are exactly those not removed.
pub proof fn lemma_kept_seats_is_filter(seats: Seq<SeatView>)
    ensures
        kept_seats(seats) == seats.filter(|s: SeatView| !s.removed),
    decreases seats.len(),
{
    reveal(Seq::filter);
    if seats.len() > 0 {
        lemma_kept_seats_is_filter(seats.drop_last());
    }
}

/// The open windows are exactly the windows not closed.
pub proof fn lemma_open_windows_is_filter(ws: Seq<Window>)
    ensures
        open_windows(ws) == ws.filter(|w: Window| !w.closed),
    decreases ws.len(),
{
    reveal(Seq::filter);
    if ws.len() > 0 {
        lemma_open_windows_is_filter(ws.drop_last());
    }
}

/// Going through the closed windows keeps exactly the windows not closed, in
/// order.
pub proof fn lemma_remove_windows_is_filter(wm: WmView)
    ensures
        remove_windows_prefix(wm, wm.windows.len()).wm.windows == wm.windows.filter(
            |w: Window| !w.closed,
        ),
{
    lemma_remove_windows_are_open(wm, wm.windows.len());
    assert(wm.windows.take(wm.windows.len() as int) =~= wm.windows);
    lemma_open_windows_is_filter(wm.windows);
}

/// The seats of `b` are those of `a` with the same ids and bindings, and the
/// outputs are the same.
pub open spec fn same_frame(a: WmView, b: WmView) -> bool {
    &&& b.outputs == a.outputs
    &&& b.seats.len() == a.seats.len()
    &&& forall|j: int|
        0 <= j < a.seats.len() ==> (#[trigger] b.seats[j]).id == a.seats[j].id
            && b.seats[j].xkb_bindings == a.seats[j].xkb_bindings
            && b.seats[j].pointer_bindings == a.seats[j].pointer_bindings
}

proof fn lemma_same_frame_ids_unique(a: WmView, b: WmView)
    requires
        a.ids_unique(),
        same_frame(a, b),
    ensures
        b.ids_unique(),
{
    assert(seat_ids(b.seats) =~= seat_ids(a.seats));
    assert forall|j: int| 0 <= j < b.seats.len() implies keys(
        (#[trigger] b.seats[j]).xkb_bindings,
    ).no_duplicates() && keys(b.seats[j].pointer_bindings).no_duplicates() by {
        assert(keys(a.seats[j].xkb_bindings).no_duplicates());
    }
}

proof fn lemma_same_frame_trans(a: WmView, b: WmView, c: WmView)
    requires
        same_frame(a, b),
        same_frame(b, c),
    ensures
        same_frame(a, c),
{
    assert forall|j: int| 0 <= j < a.seats.len() implies (#[trigger] c.seats[j]).id == a.seats[j].id
        && c.seats[j].xkb_bindings == a.seats[j].xkb_bindings && c.seats[j].pointer_bindings
        == a.seats[j].pointer_bindings by {
        assert(b.seats[j].id == a.seats[j].id);
    }
}

proof fn lemma_manage_windows_frame(wm: WmView, n: nat)
    requires
        n <= wm.windows.len(),
    ensures
        manage_windows_prefix(wm, n) matches Ok(p) ==> same_frame(wm, p.wm),
    decreases n,
{
    if n > 0 {
        lemma_manage_windows_frame(wm, (n - 1) as nat);
        if let Ok(p) = manage_windows_prefix(wm, (n - 1) as nat) {
            let i = n - 1;
            if let Ok(m) = move_request_step(p.wm, i) {
                assert(same_frame(p.wm, m.wm));
                lemma_same_frame_trans(wm, p.wm, m.wm);
                if let Ok(q) = resize_request_step(m.wm, i) {
                    assert(same_frame(m.wm, q.wm));
                    lemma_same_frame_trans(wm, m.wm, q.wm);
                }
            }
        }
    }
}

proof fn lemma_action_keeps_seat_frame(s: SeatView, ws: Seq<Window>)
    requires
        s.do_action_outcome(ws) is Ok,
    ensures
        ({
            let t = s.do_action_outcome(ws)->Ok_0.seat;
            &&& t.id == s.id
            &&& t.xkb_bindings == s.xkb_bindings
            &&& t.pointer_bindings == s.pointer_bindings
        }),
{
}

proof fn lemma_manage_seats_frame(wm: WmView, n: nat)
    requires
        n <= wm.seats.len(),
    ensures
        manage_seats_prefix(wm, n) matches Ok(p) ==> same_frame(wm, p.wm),
    decreases n,
{
    if n > 0 {
        lemma_manage_seats_frame(wm, (n - 1) as nat);
        if let Ok(p) = manage_seats_prefix(wm, (n - 1) as nat) {
            let j = n - 1;
            if let Ok(w1) = raise_interacted_step(p.wm, j) {
                assert(same_frame(p.wm, w1));
                lemma_same_frame_trans(wm, p.wm, w1);
                let s1 = w1.seats[j].after_focus_top(w1.windows);
                if s1.do_action_outcome(w1.windows) is Ok {
                    lemma_action_keeps_seat_frame(s1, w1.windows);
                    let q = seat_actions_step(w1, j)->Ok_0;
                    assert(same_frame(w1, q.wm));
                    lemma_same_frame_trans(wm, w1, q.wm);
                }
            }
        }
    }
}

proof fn lemma_kept_outputs_from(outs: Seq<Output>)
    ensures
        forall|k: int|
            0 <= k < kept_outputs(outs).len() ==> exists|j: int|
                0 <= j < outs.len() && #[trigger] kept_outputs(outs)[k] == outs[j],
    decreases outs.len(),
{
    if outs.len() > 0 {
        let prev = kept_outputs(outs.drop_last());
        lemma_kept_outputs_from(outs.drop_last());
        assert forall|k: int| 0 <= k < kept_outputs(outs).len() implies exists|j: int|
            0 <= j < outs.len() && #[trigger] kept_outputs(outs)[k] == outs[j] by {
            if k < prev.len() {
                let j = choose|j: int|
                    0 <= j < outs.drop_last().len() && #[trigger] prev[k] == outs.drop_last()[j];
                assert(kept_outputs(outs)[k] == outs[j]);
            } else {
                assert(kept_outputs(outs)[k] == outs[outs.len() - 1]);
            }
        }
    }
}

proof fn lemma_kept_outputs_distinct(outs: Seq<Output>)
    requires
        keys(outs).no_duplicates(),
    ensures
        keys(kept_outputs(outs)).no_duplicates(),
    decreases outs.len(),
{
    if outs.len() > 0 {
        let d = outs.drop_last();
        let last = outs.last();
        assert(keys(d).no_duplicates()) by {
            assert forall|i: int, j: int|
                0 <= i < keys(d).len() && 0 <= j < keys(d).len() && i != j implies keys(d)[i]
                != keys(d)[j] by {
                assert(keys(d)[i] == keys(outs)[i] && keys(d)[j] == keys(outs)[j]);
            }
        }
        lemma_kept_outputs_distinct(d);
        lemma_kept_outputs_from(d);
        let prev = kept_outputs(d);
        if !last.removed {
            let r = prev.push(last);
            assert(keys(r) =~= keys(prev).push(last.id));
            assert forall|i: int, j: int|
                0 <= i < keys(r).len() && 0 <= j < keys(r).len() && i != j implies keys(r)[i]
                != keys(r)[j] by {
                if i < prev.len() && j < prev.len() {
                    assert(keys(r)[i] == keys(prev)[i] && keys(r)[j] == keys(prev)[j]);
                } else if i < prev.len() {
                    let a = choose|a: int| 0 <= a < d.len() && #[trigger] prev[i] == d[a];
                    assert(keys(outs)[a] != keys(outs)[outs.len() - 1]);
                } else {
                    let a = choose|a: int| 0 <= a < d.len() && #[trigger] prev[j] == d[a];
                    assert(keys(outs)[a] != keys(outs)[outs.len() - 1]);
                }
            }
        }
    }
}

proof fn lemma_kept_seats_distinct(seats: Seq<SeatView>)
    requires
        seat_ids(seats).no_duplicates(),
    ensures
        seat_ids(kept_seats(seats)).no_duplicates(),
    decreases seats.len(),
{
    if seats.len() > 0 {
        let d = seats.drop_last();
        let last = seats.last();
        assert(seat_ids(d).no_duplicates()) by {
            assert forall|i: int, j: int|
                0 <= i < seat_ids(d).len() && 0 <= j < seat_ids(d).len() && i != j implies seat_ids(
                d,
            )[i] != seat_ids(d)[j] by {
                assert(seat_ids(d)[i] == seat_ids(seats)[i] && seat_ids(d)[j] == seat_ids(seats)[j]);
            }
        }
        lemma_kept_seats_distinct(d);
        lemma_kept_seats_from(d);
        let prev = kept_seats(d);
        if !last.removed {
            let r = prev.push(last);
            assert(seat_ids(r) =~= seat_ids(prev).push(last.id));
            assert forall|i: int, j: int|
                0 <= i < seat_ids(r).len() && 0 <= j < seat_ids(r).len() && i != j implies seat_ids(
                r,
            )[i] != seat_ids(r)[j] by {
                if i < prev.len() && j < prev.len() {
                    assert(seat_ids(r)[i] == seat_ids(prev)[i] && seat_ids(r)[j] == seat_ids(
                        prev,
                    )[j]);
                } else if i < prev.len() {
                    let a = choose|a: int| 0 <= a < d.len() && #[trigger] prev[i] == d[a];
                    assert(seat_ids(seats)[a] != seat_ids(seats)[seats.len() - 1]);
                } else {
                    let a = choose|a: int| 0 <= a < d.len() && #[trigger] prev[j] == d[a];
                    assert(seat_ids(seats)[a] != seat_ids(seats)[seats.len() - 1]);
                }
            }
        }
    }
}

/// A manage sequence that succeeds keeps every id unique.
pub proof fn law_manage_start_keeps_ids_unique(wm: WmView)
    requires
        wm.ids_unique(),
        manage_start_outcome(wm) is Ok,
    ensures
        manage_start_outcome(wm)->Ok_0.wm.ids_unique(),
{
    let wm1 = WmView { outputs: kept_outputs(wm.outputs), ..wm };
    let rw = remove_windows_prefix(wm1, wm1.windows.len());
    let wm3 = WmView { seats: kept_seats(rw.wm.seats), ..rw.wm };
    let wm4 = WmView { windows: initialized_windows(wm3.windows), ..wm3 };
    let wm5 = WmView { seats: initialized_seats(wm4.seats), ..wm4 };
    lemma_kept_outputs_distinct(wm.outputs);
    lemma_remove_windows_keeps_outputs(wm1, wm1.windows.len());
    lemma_remove_windows_frame(wm1, wm1.windows.len());
    assert(same_frame(wm1, rw.wm));
    lemma_same_frame_ids_unique(wm1, rw.wm);
    lemma_kept_seats_distinct(rw.wm.seats);
    lemma_kept_seats_from(rw.wm.seats);
    assert(wm3.ids_unique()) by {
        assert forall|j: int| 0 <= j < wm3.seats.len() implies keys(
            (#[trigger] wm3.seats[j]).xkb_bindings,
        ).no_duplicates() && keys(wm3.seats[j].pointer_bindings).no_duplicates() by {
            let a = choose|a: int|
                0 <= a < rw.wm.seats.len() && #[trigger] kept_seats(rw.wm.seats)[j] == rw.wm.seats[a];
            assert(keys(rw.wm.seats[a].xkb_bindings).no_duplicates());
        }
    }
    assert(same_frame(wm3, wm5));
    lemma_same_frame_ids_unique(wm3, wm5);
    lemma_manage_windows_frame(wm5, wm5.windows.len());
    let p6 = manage_windows_prefix(wm5, wm5.windows.len())->Ok_0;
    lemma_same_frame_ids_unique(wm5, p6.wm);
    lemma_manage_seats_frame(p6.wm, p6.wm.seats.len());
    let p7 = manage_seats_prefix(p6.wm, p6.wm.seats.len())->Ok_0;
    lemma_same_frame_ids_unique(p6.wm, p7.wm);
}

proof fn lemma_remove_windows_frame(wm: WmView, n: nat)
    ensures
        same_frame(wm, remove_windows_prefix(wm, n).wm),
    decreases n,
{
    if n > 0 {
        lemma_remove_windows_frame(wm, (n - 1) as nat);
        let prev = remove_windows_prefix(wm, (n - 1) as nat).wm;
        let r = remove_windows_prefix(wm, n).wm;
        assert(same_frame(prev, r));
        lemma_same_frame_trans(wm, prev, r);
    }
}

proof fn lemma_binding_insert_distinct<T: crate::keyed::Keyed>(bs: Seq<T>, b: T)
    requires
        keys(bs).no_duplicates(),
    ensures
        ({
            let r = match first_index(keys(bs), b.key()) {
                Some(i) => bs.update(i, b),
                None => bs.push(b),
            };
            keys(r).no_duplicates()
        }),
{
    lemma_first_index(keys(bs), b.key());
    match first_index(keys(bs), b.key()) {
        Some(i) => {
            assert(keys(bs.update(i, b)) =~= keys(bs));
        },
        None => {
            assert(keys(bs.push(b)) =~= keys(bs).push(b.key()));
            lemma_push_keeps_no_duplicates(keys(bs), b.key());
        },
    }
}

/// Every operation keeps every id unique: a window manager whose outputs,
/// seats and seat bindings each form a map keyed by id still does after any
/// event, announcement, recorded binding, or manage or render sequence.
pub proof fn law_operations_keep_ids_unique(
    wm: WmView,
    id: u32,
    binding: u32,
    we: WindowEvent,
    oe: OutputEvent,
    se: SeatEvent,
    be: BindingEvent,
    me: ManagerEvent,
    xkb_bound: bool,
    action: Action,
)
    requires
        wm.ids_unique(),
    ensures
        (WmView { windows: seq![], outputs: seq![], seats: seq![] }).ids_unique(),
        window_event_outcome(wm, id, we).ids_unique(),
        output_event_outcome(wm, id, oe) matches Ok(r) ==> r.ids_unique(),
        seat_event_outcome(wm, id, se) matches Ok(r) ==> r.ids_unique(),
        xkb_binding_event_outcome(wm, id, binding, be) matches Ok(r) ==> r.ids_unique(),
        pointer_binding_event_outcome(wm, id, binding, be) matches Ok(r) ==> r.ids_unique(),
        add_xkb_binding_outcome(wm, id, XkbBinding { id: binding, action }) matches Ok(r)
            ==> r.ids_unique(),
        add_pointer_binding_outcome(wm, id, PointerBinding { id: binding, action }) matches Ok(r)
            ==> r.ids_unique(),
        (WmView { windows: wm.windows.push(Window::spec_new(id, 0, 0)), ..wm }).ids_unique(),
        (WmView { outputs: with_output(wm.outputs, id), ..wm }).ids_unique(),
        (WmView { seats: with_seat(wm.seats, id), ..wm }).ids_unique(),
        crate::wm::render_start_outcome(wm).wm.ids_unique(),
        manager_event_outcome(wm, me, xkb_bound) matches Ok((step, _)) ==> step.wm.ids_unique(),
{
    let empty = WmView { windows: seq![], outputs: seq![], seats: seq![] };
    assert(keys(empty.outputs) =~= Seq::<u32>::empty());
    assert(seat_ids(empty.seats) =~= Seq::<u32>::empty());
    lemma_same_frame_ids_unique(wm, window_event_outcome(wm, id, we));
    if let Ok(r) = output_event_outcome(wm, id, oe) {
        if let Some(i) = output_index(wm.outputs, id) {
            assert(keys(r.outputs) =~= keys(wm.outputs));
        }
        assert(seat_ids(r.seats) =~= seat_ids(wm.seats));
    }
    if let Ok(r) = seat_event_outcome(wm, id, se) {
        lemma_same_frame_ids_unique(wm, r);
    }
    if let Ok(r) = xkb_binding_event_outcome(wm, id, binding, be) {
        lemma_same_frame_ids_unique(wm, r);
    }
    if let Ok(r) = pointer_binding_event_outcome(wm, id, binding, be) {
        lemma_same_frame_ids_unique(wm, r);
    }
    if let Ok(r) = add_xkb_binding_outcome(wm, id, XkbBinding { id: binding, action }) {
        let i = seat_index(wm.seats, id)->Some_0;
        lemma_first_index(seat_ids(wm.seats), id);
        lemma_binding_insert_distinct(wm.seats[i].xkb_bindings, XkbBinding { id: binding, action });
        assert(seat_ids(r.seats) =~= seat_ids(wm.seats));
        assert forall|j: int| 0 <= j < r.seats.len() implies keys(
            (#[trigger] r.seats[j]).xkb_bindings,
        ).no_duplicates() && keys(r.seats[j].pointer_bindings).no_duplicates() by {
            assert(keys(wm.seats[j].xkb_bindings).no_duplicates());
        }
    }
    if let Ok(r) = add_pointer_binding_outcome(wm, id, PointerBinding { id: binding, action }) {
        let i = seat_index(wm.seats, id)->Some_0;
        lemma_first_index(seat_ids(wm.seats), id);
        lemma_binding_insert_distinct(
            wm.seats[i].pointer_bindings,
            PointerBinding { id: binding, action },
        );
        assert(seat_ids(r.seats) =~= seat_ids(wm.seats));
        assert forall|j: int| 0 <= j < r.seats.len() implies keys(
            (#[trigger] r.seats[j]).xkb_bindings,
        ).no_duplicates() && keys(r.seats[j].pointer_bindings).no_duplicates() by {
            assert(keys(wm.seats[j].xkb_bindings).no_duplicates());
        }
    }
    lemma_announcements_keep_ids_unique(wm, id);
    law_render_only_moves_windows(wm);
    lemma_same_frame_ids_unique(wm, crate::wm::render_start_outcome(wm).wm);
    match me {
        ManagerEvent::ManageStart => {
            if xkb_bound && manage_start_outcome(wm) is Ok {
                law_manage_start_keeps_ids_unique(wm);
            }
        },
        ManagerEvent::Window { id } => lemma_announcements_keep_ids_unique(wm, id),
        ManagerEvent::Output { id } => lemma_announcements_keep_ids_unique(wm, id),
        ManagerEvent::Seat { id } => lemma_announcements_keep_ids_unique(wm, id),
        _ => {},
    }
}

proof fn lemma_announcements_keep_ids_unique(wm: WmView, id: u32)
    requires
        wm.ids_unique(),
    ensures
        (WmView { windows: wm.windows.push(Window::spec_new(id, 0, 0)), ..wm }).ids_unique(),
        (WmView { outputs: with_output(wm.outputs, id), ..wm }).ids_unique(),
        (WmView { seats: with_seat(wm.seats, id), ..wm }).ids_unique(),
{
    lemma_same_frame_ids_unique(
        wm,
        WmView { windows: wm.windows.push(Window::spec_new(id, 0, 0)), ..wm },
    );
    law_output_announcement_is_map_insert(wm.outputs, id, id);
    law_seat_announcement_is_map_insert(wm.seats, id, id);
    let seated = WmView { seats: with_seat(wm.seats, id), ..wm };
    assert(keys(SeatView::fresh(id).xkb_bindings) =~= Seq::<u32>::empty());
    assert(keys(SeatView::fresh(id).pointer_bindings) =~= Seq::<u32>::empty());
    assert forall|j: int| 0 <= j < seated.seats.len() implies keys(
        (#[trigger] seated.seats[j]).xkb_bindings,
    ).no_duplicates() && keys(seated.seats[j].pointer_bindings).no_duplicates() by {
        if j < wm.seats.len() && seated.seats[j] == wm.seats[j] {
            assert(keys(wm.seats[j].xkb_bindings).no_duplicates());
        } else {
            assert(seated.seats[j] == SeatView::fresh(id));
        }
    }
}

/// In a render sequence, a seat resizing a window keeps in place every edge it
/// does not drag: without the left edge the window stays at its start `x`,
/// without the top edge at its start `y`. The window keeps its size, and the
/// one request sent moves its node to the new position. A window that is gone
/// is left alone.
pub proof fn law_resize_keeps_undragged_edges(wm: WmView, j: int)
    requires
        0 <= j < wm.seats.len(),
        wm.seats[j].op is Resize,
    ensures
        ({
            let st = render_seat_step(wm, j);
            match wm.seats[j].op {
                SeatOp::Resize { window, start_x, start_y, edges, .. } => match window_index(
                    wm.windows,
                    window,
                ) {
                    None => st.wm == wm && st.requests == Seq::<RequestView>::empty(),
                    Some(k) => {
                        &&& st.wm.windows.len() == wm.windows.len()
                        &&& (!edges.left ==> st.wm.windows[k].x == start_x)
                        &&& (!edges.top ==> st.wm.windows[k].y == start_y)
                        &&& st.wm.windows[k].width == wm.windows[k].width
                        &&& st.wm.windows[k].height == wm.windows[k].height
                        &&& st.wm.windows[k].id == window
                        &&& forall|m: int|
                            0 <= m < wm.windows.len() && m != k ==> st.wm.windows[m]
                                == wm.windows[m]
                        &&& st.requests == seq![
                            RequestView::SetPosition {
                                window,
                                x: st.wm.windows[k].x,
                                y: st.wm.windows[k].y,
                            },
                        ]
                    },
                },
                _ => true,
            }
        }),
{
    match wm.seats[j].op {
        SeatOp::Resize { window, .. } => {
            lemma_first_index(keys(wm.windows), window);
        },
        _ => {},
    }
}

/// A pointer travel event gives the total travel since the operation
/// started: afterwards the seat's travel is exactly the reported one, whatever
/// it was before, and a second report replaces the first.
pub proof fn law_op_delta_is_total_travel(wm: WmView, id: u32, dx: i32, dy: i32, dx2: i32, dy2: i32)
    ensures
        seat_event_outcome(wm, id, SeatEvent::OpDelta { dx, dy }) matches Ok(r) ==> {
            let i = seat_index(wm.seats, id)->Some_0;
            &&& r.seats[i].op_dx == dx
            &&& r.seats[i].op_dy == dy
            &&& r.seats[i].op == wm.seats[i].op
            &&& r.windows == wm.windows
        },
        seat_event_outcome(wm, id, SeatEvent::OpDelta { dx, dy }) matches Ok(r)
            ==> seat_event_outcome(r, id, SeatEvent::OpDelta { dx: dx2, dy: dy2 }) matches Ok(r2)
            && r2.seats[seat_index(wm.seats, id)->Some_0].op_dx == dx2
            && r2.seats[seat_index(wm.seats, id)->Some_0].op_dy == dy2,
{
    if let Ok(r) = seat_event_outcome(wm, id, SeatEvent::OpDelta { dx, dy }) {
        assert(seat_ids(r.seats) =~= seat_ids(wm.seats));
    }
}

/// Closing closes the focused window and no other: a request to close is sent
/// exactly when a window has the focus, it names that window, nothing else
/// changes but the pending action, and the window under the pointer plays no
/// part.
pub proof fn law_close_closes_the_focused_window(s: SeatView, ws: Seq<Window>, hovered: Option<u32>)
    requires
        s.pending_action == ActionView::Close,
    ensures
        s.do_action_outcome(ws) is Ok,
        ({
            let st = s.do_action_outcome(ws)->Ok_0;
            &&& st.windows == ws
            &&& st.seat == SeatView { pending_action: ActionView::Nothing, ..s }
            &&& st.requests.len() == (if s.focused is Some { 1int } else { 0int })
            &&& forall|i: int|
                0 <= i < st.requests.len() ==> st.requests[i] == RequestView::CloseWindow {
                    window: s.focused->Some_0,
                }
            &&& (SeatView { hovered, ..s }).do_action_outcome(ws)->Ok_0.requests == st.requests
        }),
{
}

/// Starting a pointer operation starts its travel at zero: the seat's travel
/// is `(0, 0)` whatever it was, so the first proposal of a resize is the
/// window's start size and a move first keeps the window where it was.
pub proof fn law_starting_an_op_resets_travel(s: SeatView, w: Window, edges: Edges)
    ensures
        s.after_pointer_resize(w, edges).op_dx == 0,
        s.after_pointer_resize(w, edges).op_dy == 0,
        s.after_pointer_resize(w, edges).op_manage_requests() == seq![
            RequestView::ProposeDimensions { window: w.id, width: w.width, height: w.height },
        ],
        s.after_pointer_move(w).op_dx == 0,
        s.after_pointer_move(w).op_dy == 0,
        op_position(s.after_pointer_move(w), w) == (w.x, w.y),
{
}

/// A global is bound at the version the window manager needs, whatever higher
/// version the compositor offers: 4 for `river_window_manager_v1` and 1 for
/// `river_xkb_bindings_v1`. An older offer is refused with both versions
/// named, and every other global is ignored.
pub proof fn law_globals_bound_at_required_version(interface: Seq<char>, version: u32)
    ensures
        global_action(interface, version) matches GlobalAction::Bind { interface: i, version: v }
            ==> v <= version && (i == Interface::WindowManager ==> v == 4) && (i
            == Interface::XkbBindings ==> v == 1),
        global_action(interface, version) matches GlobalAction::TooOld {
            interface: i,
            offered,
            required,
        } ==> offered == version && version < required && (i == Interface::WindowManager
            ==> required == 4) && (i == Interface::XkbBindings ==> required == 1),
        interface == "river_window_manager_v1"@ ==> global_action(interface, version) == if version
            >= 4 {
            GlobalAction::Bind { interface: Interface::WindowManager, version: 4 }
        } else {
            GlobalAction::TooOld { interface: Interface::WindowManager, offered: version, required: 4 }
        },
        interface == "river_xkb_bindings_v1"@ ==> global_action(interface, version) == if version
            >= 1 {
            GlobalAction::Bind { interface: Interface::XkbBindings, version: 1 }
        } else {
            GlobalAction::TooOld { interface: Interface::XkbBindings, offered: version, required: 1 }
        },
        interface != "river_window_manager_v1"@ && interface != "river_xkb_bindings_v1"@
            ==> global_action(interface, version) == GlobalAction::Ignore,
{
    reveal_strlit("river_window_manager_v1");
    reveal_strlit("river_xkb_bindings_v1");
    assert("river_window_manager_v1"@[6] != "river_xkb_bindings_v1"@[6]);
}

/// A seat event changes that seat alone, and only what it reports: the window
/// under the pointer, the window interacted with, the pointer travel, the
/// release of the pointer button, or the removal of the seat.
pub proof fn law_seat_events_change_only_what_they_report(wm: WmView, id: u32, e: SeatEvent)
    ensures
        seat_event_outcome(wm, id, e) matches Ok(r) ==> {
            let i = seat_index(wm.seats, id)->Some_0;
            let s = wm.seats[i];
            let t = r.seats[i];
            &&& r.windows == wm.windows
            &&& r.outputs == wm.outputs
            &&& r.seats.len() == wm.seats.len()
            &&& forall|k: int| 0 <= k < wm.seats.len() && k != i ==> r.seats[k] == wm.seats[k]
            &&& t.id == s.id && t.op == s.op && t.focused == s.focused
            &&& t.pending_action == s.pending_action && t.new == s.new
            &&& t.xkb_bindings == s.xkb_bindings && t.pointer_bindings == s.pointer_bindings
            &&& t.hovered == match e {
                SeatEvent::PointerEnter { window } => Some(window),
                SeatEvent::PointerLeave => None,
                _ => s.hovered,
            }
            &&& t.interacted == match e {
                SeatEvent::WindowInteraction { window } => Some(window),
                _ => s.interacted,
            }
            &&& (t.op_dx, t.op_dy) == match e {
                SeatEvent::OpDelta { dx, dy } => (dx, dy),
                _ => (s.op_dx, s.op_dy),
            }
            &&& t.op_release == (s.op_release || e == SeatEvent::OpRelease)
            &&& t.removed == (s.removed || e == SeatEvent::Removed)
        },
        seat_event_outcome(wm, id, e) is Err <==> (forall|k: int|
            0 <= k < wm.seats.len() ==> wm.seats[k].id != id),
{
    lemma_first_index(seat_ids(wm.seats), id);
    if seat_event_outcome(wm, id, e) is Err {
        assert forall|k: int| 0 <= k < wm.seats.len() implies wm.seats[k].id != id by {
            assert(seat_ids(wm.seats)[k] == wm.seats[k].id);
        }
    } else {
        let i = seat_index(wm.seats, id)->Some_0;
        assert(seat_ids(wm.seats)[i] == id);
    }
}

/// A window event changes that window alone, and only what it reports: its
/// size, its closing, or the seat and edges of a pointer request; events of
/// unknown windows change nothing.
pub proof fn law_window_events_change_only_what_they_report(wm: WmView, id: u32, e: WindowEvent)
    ensures
        ({
            let r = window_event_outcome(wm, id, e);
            &&& r.seats == wm.seats
            &&& r.outputs == wm.outputs
            &&& r.windows.len() == wm.windows.len()
            &&& match window_index(wm.windows, id) {
                None => r == wm,
                Some(i) => {
                    let w = wm.windows[i];
                    let v = r.windows[i];
                    &&& forall|k: int| 0 <= k < wm.windows.len() && k != i ==> r.windows[k] == wm.windows[k]
                    &&& v.id == id && v.x == w.x && v.y == w.y && v.new == w.new
                    &&& v.closed == (w.closed || e == WindowEvent::Closed)
                    &&& (v.width, v.height) == match e {
                        WindowEvent::Dimensions { width, height } => (width, height),
                        _ => (w.width, w.height),
                    }
                    &&& v.pointer_move_requested == match e {
                        WindowEvent::PointerMoveRequested { seat } => Some(seat),
                        _ => w.pointer_move_requested,
                    }
                    &&& (v.pointer_resize_requested, v.pointer_resize_requested_edges) == match e {
                        WindowEvent::PointerResizeRequested { seat, edges } => (Some(seat), edges),
                        _ => (w.pointer_resize_requested, w.pointer_resize_requested_edges),
                    }
                },
            }
        }),
{
    lemma_first_index(keys(wm.windows), id);
}

/// Focusing the top gives the seat's focus to the last window and raises it,
/// or clears the focus when there is no window; nothing else of the seat
/// changes.
pub proof fn law_focus_top_focuses_the_last_window(s: SeatView, ws: Seq<Window>)
    ensures
        s.after_focus_top(ws) == (SeatView {
            focused: if ws.len() > 0 {
                Some(ws[ws.len() - 1].id)
            } else {
                None
            },
            ..s
        }),
        ws.len() > 0 ==> s.focus_top_requests(ws) == seq![
            RequestView::FocusWindow { seat: s.id, window: ws[ws.len() - 1].id },
            RequestView::PlaceTop { window: ws[ws.len() - 1].id },
        ],
        ws.len() == 0 ==> s.focus_top_requests(ws) == seq![RequestView::ClearFocus { seat: s.id }],
{
}

/// Ending an operation leaves the seat without one and tells the compositor
/// so, after telling a resized window that its resize is over; nothing else
/// of the seat changes.
pub proof fn law_op_end_ends_the_operation(s: SeatView)
    ensures
        s.after_op_end() == (SeatView { op: SeatOp::Idle, ..s }),
        s.op_end_requests().last() == (RequestView::OpEnd { seat: s.id }),
        s.op_end_requests().len() == if s.op is Resize { 2int } else { 1int },
        s.op matches SeatOp::Resize { window, .. } ==> s.op_end_requests()[0]
            == (RequestView::InformResizeEnd { window }),
{
}

/// Starting a program sends exactly its command, and ending the session sends
/// exactly that request; neither touches the windows.
pub proof fn law_spawn_and_exit_send_exactly_their_request(s: SeatView, ws: Seq<Window>)
    ensures
        s.pending_action matches ActionView::Spawn(command) ==> (command.len() == 0 <==> s.do_action_outcome(
            ws,
        ) is Err) && (command.len() > 0 ==> s.do_action_outcome(ws)->Ok_0.requests == seq![
            RequestView::Spawn { command },
        ] && s.do_action_outcome(ws)->Ok_0.windows == ws),
        s.pending_action == ActionView::Exit ==> s.do_action_outcome(ws)->Ok_0.requests == seq![
            RequestView::ExitSession,
        ] && s.do_action_outcome(ws)->Ok_0.windows == ws,
{
}

/// Moving or resizing with the pointer starts on the window under the pointer,
/// from where it is and at its size, a resize dragging the bottom right corner;
/// nothing starts while another operation runs or when no window is under the
/// pointer.
pub proof fn law_pointer_actions_start_on_hovered_window(s: SeatView, ws: Seq<Window>, k: int)
    requires
        s.pending_action == ActionView::Move || s.pending_action == ActionView::Resize,
    ensures
        (s.op !is Idle || s.hovered is None) ==> s.do_action_outcome(ws) is Ok
            && s.do_action_outcome(ws)->Ok_0.seat.op == s.op
            && s.do_action_outcome(ws)->Ok_0.requests.len() == 0,
        s.op is Idle && s.hovered == Some(ws[k].id) && 0 <= k < ws.len() && (forall|m: int|
            0 <= m < k ==> ws[m].id != ws[k].id) ==> {
            let st = s.do_action_outcome(ws)->Ok_0;
            &&& s.do_action_outcome(ws) is Ok
            &&& st.windows == ws
            &&& st.seat.op_dx == 0 && st.seat.op_dy == 0
            &&& st.seat.interacted == Some(ws[k].id)
            &&& s.pending_action == ActionView::Move ==> st.seat.op == (SeatOp::Move {
                window: ws[k].id,
                start_x: ws[k].x,
                start_y: ws[k].y,
            })
            &&& s.pending_action == ActionView::Resize ==> st.seat.op == (SeatOp::Resize {
                window: ws[k].id,
                start_x: ws[k].x,
                start_y: ws[k].y,
                start_width: ws[k].width,
                start_height: ws[k].height,
                edges: Edges { top: false, bottom: true, left: false, right: true },
            })
        },
{
    if 0 <= k < ws.len() {
        lemma_first_index(keys(ws), ws[k].id);
        if forall|m: int| 0 <= m < k ==> ws[m].id != ws[k].id {
            assert(crate::keyed::is_first(keys(ws), ws[k].id, k));
        }
    }
}

/// A resize proposes a width grown by the horizontal travel when the right
/// edge alone is dragged, shrunk by it when the left edge alone is, and the
/// start width otherwise; the same for the height with the bottom and top
/// edges and the vertical travel. The arithmetic wraps on `i32`.
pub proof fn law_resize_proposal_follows_dragged_edges(s: SeatView)
    requires
        s.op is Resize,
    ensures
        match s.op {
            SeatOp::Resize { window, start_width: sw, start_height: sh, edges, .. } => {
                let width = if edges.right && !edges.left {
                    sw.wrapping_add(s.op_dx)
                } else if edges.left && !edges.right {
                    sw.wrapping_sub(s.op_dx)
                } else {
                    sw
                };
                let height = if edges.bottom && !edges.top {
                    sh.wrapping_add(s.op_dy)
                } else if edges.top && !edges.bottom {
                    sh.wrapping_sub(s.op_dy)
                } else {
                    sh
                };
                s.op_manage_requests() == seq![
                    RequestView::ProposeDimensions { window, width, height },
                ]
            },
            _ => true,
        },
{
}

} // verus!
