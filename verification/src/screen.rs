//! What the Viewer holds between frames, apart from the pictures: the deck, the
//! window and whether the session is over; and what it does with each thing
//! that comes down the wire.
use vstd::prelude::*;

use crate::deck::{accepted, lemma_first_with, turns_the_page, Deck, Sheet};
use crate::window::{after_a_show, after_asking, is_born, is_waiting, Window, WindowState};
use crate::wire::{Command, DeckSnapshot};

verus! {

/// What the window needs after the commands of a turn were taken in.
#[derive(Debug, Clone, Copy, PartialEq, Eq, Structural)]
pub enum Front {
    /// The window was born or reborn: send it to the front.
    BringForward,
    /// A `show` is waiting on the first frame: come back as soon as it paints.
    Repaint,
    /// Nothing: an update never brings the window to the front.
    Nothing,
}

/// The Viewer's state: the sheets, the window, and whether the session that
/// prompted the flipchart has ended.
#[derive(Debug)]
pub struct Screen<K> {
    pub deck: Deck<K>,
    pub window: Window,
    pub session_over: bool,
}

/// The window's state once a snapshot arrived that did, or did not, turn the
/// page: only a `show`, which always brings a sheet the Viewer did not have to
/// the front, asks for the window; a `clear` or an update never does.
pub open spec fn window_after(w: WindowState, turned: bool) -> WindowState {
    if turned {
        after_a_show(w)
    } else {
        w
    }
}

/// The action after the commands of a turn, for a window in state `w`.
pub open spec fn front_for(w: WindowState) -> Front {
    if is_born(w) {
        Front::BringForward
    } else if is_waiting(after_asking(w)) {
        Front::Repaint
    } else {
        Front::Nothing
    }
}

impl<K> Screen<K> {
    /// The screen of the first `show`: an empty deck, a window nobody asked for
    /// yet, and a session that goes on.
    pub fn new() -> (screen: Self)
        ensures
            screen.deck.sheets_view().len() == 0,
            screen.deck.cursor_view() == 0,
            screen.window@ == (WindowState { open: false, asked_for: false, painted: false }),
            !screen.session_over,
    {
        Screen { deck: Deck::default(), window: Window::default(), session_over: false }
    }

    /// A snapshot arrived: one that turns the page (a `show`) asks for the
    /// window, and the deck takes it in whatever it holds.
    pub fn accept<F: Fn() -> K>(&mut self, snapshot: &DeckSnapshot, born: F)
        requires
            call_requires(born, ()),
        ensures
            final(self).window@ == window_after(
                old(self).window@,
                turns_the_page(old(self).deck.sheets_view(), *snapshot),
            ),
            final(self).session_over == old(self).session_over,
            accepted(
                old(self).deck.sheets_view(),
                old(self).deck.cursor_view(),
                final(self).deck.sheets_view(),
                final(self).deck.cursor_view(),
                *snapshot,
                born,
            ),
    {
        let front = match snapshot.front {
            Some(f) => f,
            None => 0,
        };
        let turned = if front < snapshot.sheets.len() {
            self.deck.position(snapshot.sheets[front].number).is_none()
        } else {
            false
        };
        if turned {
            self.window.a_show_arrived();
        }
        self.deck.accept(snapshot, born);
    }

    /// One command from the server: a snapshot to take in, or the goodbye.
    /// Gives the snapshot back, for the pictures to be painted from it.
    pub fn took<F: Fn() -> K>(&mut self, command: Command, born: F) -> (snapshot: Option<DeckSnapshot>)
        requires
            call_requires(born, ()),
        ensures
            match command {
                Command::Show(shown) => {
                    &&& snapshot == Some(shown)
                    &&& final(self).window@ == window_after(
                        old(self).window@,
                        turns_the_page(old(self).deck.sheets_view(), shown),
                    )
                    &&& final(self).session_over == old(self).session_over
                    &&& accepted(
                        old(self).deck.sheets_view(),
                        old(self).deck.cursor_view(),
                        final(self).deck.sheets_view(),
                        final(self).deck.cursor_view(),
                        shown,
                        born,
                    )
                },
                Command::SessionOver => {
                    &&& snapshot is None
                    &&& final(self).session_over
                    &&& final(self).window@ == old(self).window@
                    &&& final(self).deck.sheets_view() == old(self).deck.sheets_view()
                    &&& final(self).deck.cursor_view() == old(self).deck.cursor_view()
                },
            },
    {
        match command {
            Command::Show(shown) => {
                self.accept(&shown, born);
                Some(shown)
            },
            Command::SessionOver => {
                self.session_over = true;
                None
            },
        }
    }

    /// After the commands of a turn: send the window to the front if it was
    /// born or reborn, ask for a frame if a `show` waits on the first one, and
    /// otherwise leave it where it is.
    pub fn to_the_front(&mut self) -> (front: Front)
        ensures
            front == front_for(old(self).window@),
            final(self).window@ == after_asking(old(self).window@),
            final(self).session_over == old(self).session_over,
            final(self).deck.sheets_view() == old(self).deck.sheets_view(),
            final(self).deck.cursor_view() == old(self).deck.cursor_view(),
    {
        if self.window.born() {
            Front::BringForward
        } else if self.window.waiting_to_be_born() {
            Front::Repaint
        } else {
            Front::Nothing
        }
    }
}

/// A `clear` alone does not bring the window out: a snapshot that does not turn
/// the page leaves the window as it was, so a window hidden after it was born
/// stays away until the next `show`.
pub proof fn a_clear_alone_does_not_bring_the_window_out(w: WindowState)
    ensures
        window_after(w, false) == w,
        w.painted && !w.open && !w.asked_for ==> front_for(window_after(w, false))
            == Front::Nothing,
{
}

/// A `show` brings the window out: once it has painted, a window that does not
/// stand open (never born, or hidden since) goes to the front after a snapshot
/// that turns the page.
pub proof fn a_show_brings_the_window_out(w: WindowState)
    requires
        w.painted,
        !w.open,
    ensures
        front_for(window_after(w, true)) == Front::BringForward,
{
}

/// A `show` asks for the window, wherever its sheet stands in the snapshot:
/// when the sheet at the snapshot's front carries a number no sheet of the deck
/// had, the window is asked for and keeps the rest of what it knew, so a hidden
/// window that has painted is reborn.
pub proof fn a_show_asks_for_the_window<K>(
    w: WindowState,
    before: Seq<Sheet<K>>,
    snapshot: DeckSnapshot,
    front: usize,
)
    requires
        snapshot.front == Some(front) || (snapshot.front is None && front == 0),
        0 <= front < snapshot.sheets@.len(),
        forall|k: int| 0 <= k < before.len() ==> #[trigger] before[k].number
            != snapshot.sheets@[front as int].number,
    ensures
        window_after(w, turns_the_page(before, snapshot)).asked_for,
        window_after(w, turns_the_page(before, snapshot)).open == w.open,
        window_after(w, turns_the_page(before, snapshot)).painted == w.painted,
        w.painted && !w.open ==> is_born(window_after(w, turns_the_page(before, snapshot))),
{
    lemma_first_with(before, snapshot.sheets@[front as int].number);
}

/// An update never brings a standing window to the front.
pub proof fn an_update_never_brings_the_window_forward(w: WindowState, turned: bool)
    requires
        w.open,
    ensures
        front_for(window_after(w, turned)) != Front::BringForward,
{
}

/// What the Viewer paints: the goodbye once the session is over, the empty
/// flipchart, or the sheets.
#[derive(Debug, Clone, Copy, PartialEq, Eq, Structural)]
pub enum Face {
    SessionOver,
    Empty,
    Sheets,
}

impl<K> Screen<K> {
    /// What the Viewer paints: the session's end wins over everything; an
    /// empty deck says so; otherwise the sheets.
    pub fn face(&self) -> (face: Face)
        ensures
            face == if self.session_over {
                Face::SessionOver
            } else if self.deck.sheets_view().len() == 0 {
                Face::Empty
            } else {
                Face::Sheets
            },
    {
        if self.session_over {
            Face::SessionOver
        } else if self.deck.sheets().len() == 0 {
            Face::Empty
        } else {
            Face::Sheets
        }
    }
}

} // verus!
