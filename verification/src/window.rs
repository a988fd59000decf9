//! When the window goes to the front: born on the first `show`, reborn on the
//! next `show` after it was hidden, and never on an update.
use vstd::prelude::*;

verus! {

/// What the window knows of itself: whether it stands open, whether a `show`
/// asked for it, and whether it has painted a first frame.
pub struct WindowState {
    pub open: bool,
    pub asked_for: bool,
    pub painted: bool,
}

/// A `show` with sheets arrived.
pub open spec fn after_a_show(w: WindowState) -> WindowState {
    WindowState { asked_for: true, ..w }
}

/// The user hid the window.
pub open spec fn after_hiding(w: WindowState) -> WindowState {
    WindowState { open: false, ..w }
}

/// A frame went to the screen.
pub open spec fn after_a_frame(w: WindowState) -> WindowState {
    WindowState { painted: true, ..w }
}

/// Whether asking now brings the window to the front: a `show` asked for it, it
/// has painted, and it does not stand open already.
pub open spec fn is_born(w: WindowState) -> bool {
    w.painted && w.asked_for && !w.open
}

/// What asking leaves behind: before the first frame, nothing changes; after
/// it, the request is spent and the window stands open if it was asked for.
pub open spec fn after_asking(w: WindowState) -> WindowState {
    if !w.painted {
        w
    } else {
        WindowState { open: w.open || w.asked_for, asked_for: false, painted: true }
    }
}

/// Whether a `show` is waiting on the first frame.
pub open spec fn is_waiting(w: WindowState) -> bool {
    w.asked_for && !w.painted
}

/// The window is born on the first `show` and is reborn on the next one after
/// it was hidden. It is sent to the front when it is born and when it is
/// reborn, never on an update, and being born waits for the first frame.
#[derive(Debug)]
pub struct Window {
    open: bool,
    asked_for: bool,
    painted: bool,
}

impl View for Window {
    type V = WindowState;

    closed spec fn view(&self) -> WindowState {
        WindowState { open: self.open, asked_for: self.asked_for, painted: self.painted }
    }
}

impl Default for Window {
    /// A closed window that nobody asked for and that has painted nothing.
    fn default() -> (w: Window)
        ensures
            w@ == (WindowState { open: false, asked_for: false, painted: false }),
    {
        Window { open: false, asked_for: false, painted: false }
    }
}

impl Window {
    pub fn a_show_arrived(&mut self)
        ensures
            final(self)@ == after_a_show(old(self)@),
    {
        self.asked_for = true;
    }

    pub fn hidden(&mut self)
        ensures
            final(self)@ == after_hiding(old(self)@),
    {
        self.open = false;
    }

    pub fn a_frame_was_painted(&mut self)
        ensures
            final(self)@ == after_a_frame(old(self)@),
    {
        self.painted = true;
    }

    /// Whether the window is to be sent to the front now.
    pub fn born(&mut self) -> (fronted: bool)
        ensures
            fronted == is_born(old(self)@),
            final(self)@ == after_asking(old(self)@),
    {
        if !self.painted {
            return false;
        }
        let asked = self.asked_for;
        self.asked_for = false;
        let was_open = self.open;
        if asked {
            self.open = true;
        }
        asked && !was_open
    }

    /// The `show` has already arrived and the window has not painted yet: the
    /// Viewer has to come back as soon as it has.
    pub fn waiting_to_be_born(&self) -> (waiting: bool)
        ensures
            waiting == is_waiting(self@),
    {
        self.asked_for && !self.painted
    }
}

/// Nothing goes to the front before the first frame.
pub proof fn the_front_waits_for_the_first_frame(w: WindowState)
    requires
        !w.painted,
    ensures
        !is_born(w),
        !is_born(after_a_show(w)),
        after_asking(w) == w,
{
}

/// A `show` that arrives before the first frame stays pending until it.
pub proof fn a_show_before_the_first_frame_stays_pending(w: WindowState)
    requires
        !w.painted,
    ensures
        is_waiting(after_asking(after_a_show(w))),
        is_born(after_a_frame(after_asking(after_a_show(w)))) == !w.open,
{
}

/// A window that stands open is never sent to the front again by a `show`, a
/// frame or an ask: only hiding it lets the next `show` bring it back.
pub proof fn a_standing_window_is_never_fronted_again(w: WindowState)
    requires
        w.open,
    ensures
        !is_born(w),
        after_a_show(w).open,
        after_a_frame(w).open,
        after_asking(w).open,
{
}

/// Once the window has painted, whoever asked gets it: after asking, nothing is
/// left pending and the window stands open if a `show` had asked for it.
pub proof fn asking_spends_the_request(w: WindowState)
    requires
        w.painted,
    ensures
        !after_asking(w).asked_for,
        !is_waiting(after_asking(w)),
        after_asking(w).open == (w.open || w.asked_for),
{
}

/// After the window was hidden, the next `show` brings it to the front again;
/// without a `show` it stays away.
pub proof fn a_hidden_window_is_reborn_by_the_next_show(w: WindowState)
    requires
        w.painted,
    ensures
        is_born(after_a_show(after_hiding(w))),
        !is_born(after_hiding(after_asking(w))),
{
}

/// Asking never forgets the first frame: a window that has painted stays
/// painted whatever is asked, so once hidden it is reborn by the next `show`
/// without waiting for a frame, even when the Viewer asked while it was away.
pub proof fn asking_never_forgets_the_first_frame(w: WindowState)
    requires
        w.painted,
        !w.asked_for,
    ensures
        after_asking(w).painted,
        after_asking(after_a_show(w)).painted,
        after_a_show(after_asking(after_hiding(w))).painted,
        after_a_show(after_asking(after_hiding(w))).asked_for,
        !after_a_show(after_asking(after_hiding(w))).open,
        is_born(after_a_show(after_asking(after_hiding(w)))),
        !is_waiting(after_asking(after_a_show(after_asking(after_hiding(w))))),
{
}

} // verus!
