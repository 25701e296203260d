//! When a popup opens and closes.

use vstd::prelude::*;

verus! {

/// The open, close and toggle requests made to a popup in one frame.
#[derive(Clone, Copy, Debug, PartialEq, Eq, Structural)]
pub struct Popup {
    pub should_open: bool,
    pub should_close: bool,
    pub should_toggle: bool,
}

/// What showing a popup does in one frame.
#[derive(Clone, Copy, Debug, PartialEq, Eq, Structural)]
pub struct PopupFrame {
    /// Mark the popup open.
    pub open_call: bool,
    /// Close the open popup.
    pub close_call: bool,
    /// Whether the popup is shown this frame.
    pub shown: bool,
    /// Whether the popup was asked to open this frame, after a toggle.
    pub opening: bool,
}

/// The frame of a popup that was open (`was_open`) or not before: a toggle
/// turns into a close request when it was open and an open request when it
/// was not; then an open request opens it, and a close request closes it if
/// it is open.
pub open spec fn popup_frame(p: Popup, was_open: bool) -> PopupFrame {
    let should_close = if p.should_toggle { was_open } else { p.should_close };
    let should_open = if p.should_toggle { !was_open } else { p.should_open };
    let open_after_open = was_open || should_open;
    let close_call = should_close && open_after_open;
    PopupFrame {
        open_call: should_open,
        close_call,
        shown: open_after_open && !close_call,
        opening: should_open,
    }
}

impl Popup {
    /// No requests.
    pub fn new() -> (r: Self)
        ensures
            !r.should_open && !r.should_close && !r.should_toggle,
    {
        Popup { should_open: false, should_close: false, should_toggle: false }
    }

    pub fn should_open(self, should_open: bool) -> (r: Self)
        ensures
            r == (Popup { should_open, ..self }),
    {
        Popup { should_open, ..self }
    }

    pub fn should_close(self, should_close: bool) -> (r: Self)
        ensures
            r == (Popup { should_close, ..self }),
    {
        Popup { should_close, ..self }
    }

    pub fn should_toggle(self, should_toggle: bool) -> (r: Self)
        ensures
            r == (Popup { should_toggle, ..self }),
    {
        Popup { should_toggle, ..self }
    }

    /// What showing the popup does this frame.
    pub fn frame(&self, was_open: bool) -> (r: PopupFrame)
        ensures
            r == popup_frame(*self, was_open),
    {
        let mut should_close = self.should_close;
        let mut should_open = self.should_open;
        if self.should_toggle {
            should_close = was_open;
            should_open = !should_close;
        }
        let mut open = was_open;
        if should_open {
            open = true;
        }
        let mut close_call = false;
        if should_close && open {
            close_call = true;
            open = false;
        }
        PopupFrame { open_call: should_open, close_call, shown: open, opening: should_open }
    }
}

/// Whether a shown popup closes at the end of the frame: on escape, on a
/// click elsewhere unless it was just asked to open, or when its content
/// asked to close.
pub fn closes_after_show(frame: PopupFrame, escape_pressed: bool, clicked_elsewhere: bool, close_requested: bool) -> (r: bool)
    ensures
        r == (escape_pressed || (clicked_elsewhere && !frame.opening) || close_requested),
{
    escape_pressed || (clicked_elsewhere && !frame.opening) || close_requested
}

/// A toggle flips the popup: shown when it was closed, hidden when it was
/// open, whatever else was asked. Without a toggle, an open request shows
/// it unless a close request comes with it.
pub proof fn law_toggle_flips(p: Popup, was_open: bool)
    ensures
        p.should_toggle ==> popup_frame(p, was_open).shown == !was_open,
        !p.should_toggle && p.should_open && !p.should_close ==> popup_frame(p, was_open).shown,
        !p.should_toggle && p.should_close ==> !popup_frame(p, was_open).shown,
{
}

/// What a frame does, in terms of the requests and of whether the popup
/// was open. A toggle asks to close an open popup and to open a closed
/// one. Otherwise the popup is asked to open only by an open request;
/// it is closed when a close request meets a popup that is open (or just
/// opened); and it is shown when it was open or asked to open, unless it
/// is closed. The `opening` flag is the open request once the toggle is
/// resolved.
pub proof fn law_popup_frame(p: Popup, was_open: bool)
    ensures
        popup_frame(p, was_open).open_call == if p.should_toggle { !was_open } else { p.should_open },
        popup_frame(p, was_open).opening == popup_frame(p, was_open).open_call,
        popup_frame(p, was_open).close_call == if p.should_toggle {
            was_open
        } else {
            p.should_close && (was_open || p.should_open)
        },
        popup_frame(p, was_open).shown == if p.should_toggle {
            !was_open
        } else {
            (was_open || p.should_open) && !p.should_close
        },
        !p.should_toggle && !p.should_open ==> (popup_frame(p, was_open).shown ==> was_open),
        p.should_toggle && !was_open ==> popup_frame(p, was_open).opening,
{
}

} // verus!
