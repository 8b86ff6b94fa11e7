use vstd::prelude::*;

use crate::wm::actions::{Action, ActionView};

verus! {

/// A request that the window manager sends to the compositor.
///
/// Windows, seats, outputs and bindings are named by the protocol id of their
/// object; a window's node is named by the id of its window.
#[derive(Debug, PartialEq, Eq)]
pub enum Request {
    /// Move the window's node to `(x, y)`.
    SetPosition { window: u32, x: i32, y: i32 },
    /// Ask the window to take the given size.
    ProposeDimensions { window: u32, width: i32, height: i32 },
    /// Give the seat's keyboard focus to the window.
    FocusWindow { seat: u32, window: u32 },
    /// Raise the window's node above all others.
    PlaceTop { window: u32 },
    /// Take the keyboard focus of the seat away from every window.
    ClearFocus { seat: u32 },
    /// Start a pointer operation on the seat.
    OpStartPointer { seat: u32 },
    /// Tell the window that an interactive resize begins.
    InformResizeStart { window: u32 },
    /// Tell the window that an interactive resize is over.
    InformResizeEnd { window: u32 },
    /// End the seat's pointer operation.
    OpEnd { seat: u32 },
    /// Ask the window to close.
    CloseWindow { window: u32 },
    /// End the session.
    ExitSession,
    /// Start a program: its name, then its arguments.
    Spawn { command: Vec<String> },
    /// The manage sequence is complete.
    ManageFinish,
    /// The render sequence is complete.
    RenderFinish,
    /// Destroy the output object.
    DestroyOutput { output: u32 },
    /// Destroy the key binding object.
    DestroyXkbBinding { binding: u32 },
    /// Destroy the pointer binding object.
    DestroyPointerBinding { binding: u32 },
    /// Destroy the seat object.
    DestroySeat { seat: u32 },
    /// Create and enable a key binding on the seat that runs `action`.
    CreateXkbBinding { seat: u32, keysym: u32, modifiers: u32, action: Action },
    /// Create and enable a pointer binding on the seat that runs `action`.
    CreatePointerBinding { seat: u32, button: u32, modifiers: u32, action: Action },
}

/// The mathematical value of a [`Request`].
pub enum RequestView {
    SetPosition { window: u32, x: i32, y: i32 },
    ProposeDimensions { window: u32, width: i32, height: i32 },
    FocusWindow { seat: u32, window: u32 },
    PlaceTop { window: u32 },
    ClearFocus { seat: u32 },
    OpStartPointer { seat: u32 },
    InformResizeStart { window: u32 },
    InformResizeEnd { window: u32 },
    OpEnd { seat: u32 },
    CloseWindow { window: u32 },
    ExitSession,
    Spawn { command: Seq<Seq<char>> },
    ManageFinish,
    RenderFinish,
    DestroyOutput { output: u32 },
    DestroyXkbBinding { binding: u32 },
    DestroyPointerBinding { binding: u32 },
    DestroySeat { seat: u32 },
    CreateXkbBinding { seat: u32, keysym: u32, modifiers: u32, action: ActionView },
    CreatePointerBinding { seat: u32, button: u32, modifiers: u32, action: ActionView },
}

impl View for Request {
    type V = RequestView;

    open spec fn view(&self) -> RequestView {
        match self {
            Request::SetPosition { window, x, y } => RequestView::SetPosition {
                window: *window,
                x: *x,
                y: *y,
            },
            Request::ProposeDimensions { window, width, height } =>
                RequestView::ProposeDimensions { window: *window, width: *width, height: *height },
            Request::FocusWindow { seat, window } => RequestView::FocusWindow {
                seat: *seat,
                window: *window,
            },
            Request::PlaceTop { window } => RequestView::PlaceTop { window: *window },
            Request::ClearFocus { seat } => RequestView::ClearFocus { seat: *seat },
            Request::OpStartPointer { seat } => RequestView::OpStartPointer { seat: *seat },
            Request::InformResizeStart { window } => RequestView::InformResizeStart {
                window: *window,
            },
            Request::InformResizeEnd { window } => RequestView::InformResizeEnd {
                window: *window,
            },
            Request::OpEnd { seat } => RequestView::OpEnd { seat: *seat },
            Request::CloseWindow { window } => RequestView::CloseWindow { window: *window },
            Request::ExitSession => RequestView::ExitSession,
            Request::Spawn { command } => RequestView::Spawn { command: command.deep_view() },
            Request::ManageFinish => RequestView::ManageFinish,
            Request::RenderFinish => RequestView::RenderFinish,
            Request::DestroyOutput { output } => RequestView::DestroyOutput { output: *output },
            Request::DestroyXkbBinding { binding } => RequestView::DestroyXkbBinding {
                binding: *binding,
            },
            Request::DestroyPointerBinding { binding } => RequestView::DestroyPointerBinding {
                binding: *binding,
            },
            Request::DestroySeat { seat } => RequestView::DestroySeat { seat: *seat },
            Request::CreateXkbBinding { seat, keysym, modifiers, action } =>
                RequestView::CreateXkbBinding {
                    seat: *seat,
                    keysym: *keysym,
                    modifiers: *modifiers,
                    action: action@,
                },
            Request::CreatePointerBinding { seat, button, modifiers, action } =>
                RequestView::CreatePointerBinding {
                    seat: *seat,
                    button: *button,
                    modifiers: *modifiers,
                    action: action@,
                },
        }
    }
}

/// The values of a list of requests, in order.
pub open spec fn requests_view(s: Seq<Request>) -> Seq<RequestView> {
    s.map_values(|r: Request| r@)
}

/// Appends `request` to the list of requests to send.
pub fn emit(out: &mut Vec<Request>, request: Request)
    ensures
        requests_view(final(out)@) == requests_view(old(out)@).push(request@),
{
    let ghost r = request@;
    out.push(request);
    assert(requests_view(out@) =~= requests_view(old(out)@).push(r));
}

} // verus!
