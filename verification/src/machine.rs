//! The Machine seam, as it stands on Linux: every Machine answers the same
//! phrases, and on this one three of them have nothing to do.
use vstd::prelude::*;

verus! {

/// Nothing to hold awake. Keep-awake exists to defeat App Nap, which is
/// macOS's alone; the guard is here so the session holds the same shape on
/// every Machine.
#[derive(Debug)]
pub struct Activity;

/// The guard that holds the machine awake for as long as the session lasts;
/// here there is nothing to hold.
pub fn keep_awake_while_the_session_lasts() -> (activity: Activity)
    ensures
        activity == Activity,
{
    Activity
}

/// Nothing to stay out of: the taskbar entry comes from the window, and there
/// is no window until the first `show`.
pub fn stay_out_of_the_dock() {
}

/// How this Machine brings the window to the front.
#[derive(Debug, Clone, Copy, PartialEq, Eq, Structural)]
pub enum FrontRequest {
    /// Ask for the user's attention: the compositor decides whether the window
    /// is raised, flashed or left where it is.
    UserAttention,
}

/// On Wayland no client can raise itself, so here the window is asked to the
/// front and not commanded: a request for the user's attention, sent at the
/// instant the window is born or reborn. The keyboard is never taken.
pub fn bring_the_window_forward() -> (request: FrontRequest)
    ensures
        request == FrontRequest::UserAttention,
{
    FrontRequest::UserAttention
}

} // verus!
