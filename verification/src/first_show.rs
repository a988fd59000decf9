//! Deferred start: the main thread stays on the wire and does not build the
//! window until the agent asks for the first drawing.
use vstd::prelude::*;

use crate::wire::{Command, DeckSnapshot};

verus! {

/// What the main thread does with what came down the wire before there is a
/// window.
#[derive(Debug)]
pub enum Awaiting {
    /// Nothing to draw yet (a `show` of an empty flipchart): keep waiting.
    KeepWaiting,
    /// The first drawing: open the window with it.
    Open(DeckSnapshot),
    /// The session ended, or the wire closed, before anything was drawn: no
    /// window is ever opened.
    NoWindow,
}

/// The decision on `received`, where `None` is the wire closing.
pub open spec fn awaiting_after(received: Option<Command>) -> Awaiting {
    match received {
        Some(Command::Show(snapshot)) => if snapshot.sheets@.len() > 0 {
            Awaiting::Open(snapshot)
        } else {
            Awaiting::KeepWaiting
        },
        Some(Command::SessionOver) => Awaiting::NoWindow,
        None => Awaiting::NoWindow,
    }
}

/// The first `show` with sheets is what brings the window out; a `clear` alone
/// does not, and a session that dies or ends before it opens no window.
pub fn the_first_show(received: Option<Command>) -> (next: Awaiting)
    ensures
        next == awaiting_after(received),
{
    match received {
        Some(Command::Show(snapshot)) => if snapshot.sheets.len() > 0 {
            Awaiting::Open(snapshot)
        } else {
            Awaiting::KeepWaiting
        },
        Some(Command::SessionOver) => Awaiting::NoWindow,
        None => Awaiting::NoWindow,
    }
}

/// A window is only ever opened on a drawing with sheets in it.
pub proof fn the_window_opens_only_on_sheets(received: Option<Command>)
    ensures
        awaiting_after(received) matches Awaiting::Open(snapshot) ==> snapshot.sheets@.len() > 0
            && received == Some(Command::Show(snapshot)),
{
}

/// The command is a `show` of an empty flipchart: nothing to draw yet.
pub open spec fn shows_nothing(received: Option<Command>) -> bool {
    received matches Some(Command::Show(snapshot)) && snapshot.sheets@.len() == 0
}

/// Where the main thread stands after taking the commands `received` in
/// order, one decision each, and stopping at the first that decides.
pub open spec fn awaiting_after_all(received: Seq<Option<Command>>) -> Awaiting
    decreases received.len(),
{
    if received.len() == 0 {
        Awaiting::KeepWaiting
    } else {
        match awaiting_after(received[0]) {
            Awaiting::KeepWaiting => awaiting_after_all(received.drop_first()),
            decided => decided,
        }
    }
}

/// Over any run of commands, the window opens on the first `show` with sheets,
/// provided only empty `show`s came before it; the goodbye, or the wire
/// closing, before any such `show` means no window; and while only empty
/// `show`s arrive, the main thread keeps waiting.
pub proof fn the_first_drawing_before_the_goodbye_opens_the_window(
    received: Seq<Option<Command>>,
    first: DeckSnapshot,
)
    ensures
        (awaiting_after_all(received) == Awaiting::Open(first)) <==> exists|k: int|
            0 <= k < received.len() && #[trigger] received[k] == Some(Command::Show(first))
                && first.sheets@.len() > 0 && forall|j: int|
                0 <= j < k ==> shows_nothing(#[trigger] received[j]),
        (awaiting_after_all(received) == Awaiting::NoWindow) <==> exists|k: int|
            0 <= k < received.len() && (#[trigger] received[k] is None || received[k] == Some(
                Command::SessionOver,
            )) && forall|j: int| 0 <= j < k ==> shows_nothing(#[trigger] received[j]),
        (awaiting_after_all(received) == Awaiting::KeepWaiting) <==> forall|j: int|
            0 <= j < received.len() ==> shows_nothing(#[trigger] received[j]),
    decreases received.len(),
{
    if received.len() > 0 {
        let rest = received.drop_first();
        the_first_drawing_before_the_goodbye_opens_the_window(rest, first);
        assert forall|j: int| 0 <= j < rest.len() implies #[trigger] rest[j] == received[j + 1] by {}
        if shows_nothing(received[0]) {
            assert(awaiting_after(received[0]) == Awaiting::KeepWaiting);
            if exists|k: int|
                0 <= k < rest.len() && #[trigger] rest[k] == Some(Command::Show(first))
                    && first.sheets@.len() > 0 && forall|j: int|
                    0 <= j < k ==> shows_nothing(#[trigger] rest[j]) {
                let k = choose|k: int|
                    0 <= k < rest.len() && #[trigger] rest[k] == Some(Command::Show(first))
                        && first.sheets@.len() > 0 && forall|j: int|
                        0 <= j < k ==> shows_nothing(#[trigger] rest[j]);
                assert(received[k + 1] == Some(Command::Show(first)));
                assert forall|j: int| 0 <= j < k + 1 implies shows_nothing(#[trigger] received[j]) by {
                    if j > 0 {
                        assert(received[j] == rest[j - 1]);
                    }
                }
            }
            if exists|k: int|
                0 <= k < received.len() && #[trigger] received[k] == Some(Command::Show(first))
                    && first.sheets@.len() > 0 && forall|j: int|
                    0 <= j < k ==> shows_nothing(#[trigger] received[j]) {
                let k = choose|k: int|
                    0 <= k < received.len() && #[trigger] received[k] == Some(Command::Show(first))
                        && first.sheets@.len() > 0 && forall|j: int|
                        0 <= j < k ==> shows_nothing(#[trigger] received[j]);
                assert(k != 0);
                assert(rest[k - 1] == Some(Command::Show(first)));
                assert forall|j: int| 0 <= j < k - 1 implies shows_nothing(#[trigger] rest[j]) by {
                    assert(shows_nothing(received[j + 1]));
                }
            }
            if exists|k: int|
                0 <= k < rest.len() && (#[trigger] rest[k] is None || rest[k] == Some(
                    Command::SessionOver,
                )) && forall|j: int| 0 <= j < k ==> shows_nothing(#[trigger] rest[j]) {
                let k = choose|k: int|
                    0 <= k < rest.len() && (#[trigger] rest[k] is None || rest[k] == Some(
                        Command::SessionOver,
                    )) && forall|j: int| 0 <= j < k ==> shows_nothing(#[trigger] rest[j]);
                assert(received[k + 1] == rest[k]);
                assert forall|j: int| 0 <= j < k + 1 implies shows_nothing(#[trigger] received[j]) by {
                    if j > 0 {
                        assert(received[j] == rest[j - 1]);
                    }
                }
            }
            if exists|k: int|
                0 <= k < received.len() && (#[trigger] received[k] is None || received[k] == Some(
                    Command::SessionOver,
                )) && forall|j: int| 0 <= j < k ==> shows_nothing(#[trigger] received[j]) {
                let k = choose|k: int|
                    0 <= k < received.len() && (#[trigger] received[k] is None || received[k]
                        == Some(Command::SessionOver)) && forall|j: int|
                        0 <= j < k ==> shows_nothing(#[trigger] received[j]);
                assert(k != 0);
                assert(rest[k - 1] == received[k]);
                assert forall|j: int| 0 <= j < k - 1 implies shows_nothing(#[trigger] rest[j]) by {
                    assert(shows_nothing(received[j + 1]));
                }
            }
            if forall|j: int| 0 <= j < rest.len() ==> shows_nothing(#[trigger] rest[j]) {
                assert forall|j: int| 0 <= j < received.len() implies shows_nothing(#[trigger] received[j]) by {
                    if j > 0 {
                        assert(received[j] == rest[j - 1]);
                    }
                }
            }
            if forall|j: int| 0 <= j < received.len() ==> shows_nothing(#[trigger] received[j]) {
                assert forall|j: int| 0 <= j < rest.len() implies shows_nothing(#[trigger] rest[j]) by {
                    assert(shows_nothing(received[j + 1]));
                }
            }
        } else {
            assert(!shows_nothing(received[0]));
            assert(received[0] == Some(Command::Show(first)) ==> first.sheets@.len() > 0 ==> (exists|k: int|
                0 <= k < received.len() && #[trigger] received[k] == Some(Command::Show(first))
                    && first.sheets@.len() > 0 && forall|j: int|
                    0 <= j < k ==> shows_nothing(#[trigger] received[j])));
            if exists|k: int|
                0 <= k < received.len() && #[trigger] received[k] == Some(Command::Show(first))
                    && first.sheets@.len() > 0 && forall|j: int|
                    0 <= j < k ==> shows_nothing(#[trigger] received[j]) {
                let k = choose|k: int|
                    0 <= k < received.len() && #[trigger] received[k] == Some(Command::Show(first))
                        && first.sheets@.len() > 0 && forall|j: int|
                        0 <= j < k ==> shows_nothing(#[trigger] received[j]);
                if k > 0 {
                    assert(shows_nothing(received[0]));
                }
            }
            if exists|k: int|
                0 <= k < received.len() && (#[trigger] received[k] is None || received[k] == Some(
                    Command::SessionOver,
                )) && forall|j: int| 0 <= j < k ==> shows_nothing(#[trigger] received[j]) {
                let k = choose|k: int|
                    0 <= k < received.len() && (#[trigger] received[k] is None || received[k]
                        == Some(Command::SessionOver)) && forall|j: int|
                        0 <= j < k ==> shows_nothing(#[trigger] received[j]);
                if k > 0 {
                    assert(shows_nothing(received[0]));
                }
            }
            assert(received[0] is None || received[0] == Some(Command::SessionOver) ==> (exists|k: int|
                0 <= k < received.len() && (#[trigger] received[k] is None || received[k] == Some(
                    Command::SessionOver,
                )) && forall|j: int| 0 <= j < k ==> shows_nothing(#[trigger] received[j])));
        }
    }
}

} // verus!
