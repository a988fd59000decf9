//! The sheets the Viewer holds and which one is being looked at. The cursor is
//! local to the Viewer, the user's only control, and the next `show` overwrites
//! it; a `clear` leaves it looking where it was.
use vstd::prelude::*;

use crate::wire::{DeckSnapshot, Drawn};

verus! {

/// A sheet on screen: its number, its name, and what the Viewer keeps of it
/// (its drawing, the fit its size earns it, the user's zoom and pan). A
/// replaced View inherits none of that.
#[derive(Debug)]
pub struct Sheet<K> {
    pub number: u64,
    pub id: String,
    pub keep: K,
}

/// The first position in `sheets` of the sheet numbered `number`, if any.
pub open spec fn first_with<K>(sheets: Seq<Sheet<K>>, number: u64) -> Option<int>
    decreases sheets.len(),
{
    if sheets.len() == 0 {
        None
    } else if sheets[0].number == number {
        Some(0)
    } else {
        match first_with(sheets.drop_first(), number) {
            Some(i) => Some(i + 1),
            None => None,
        }
    }
}

/// `first_with` finds the first sheet with the number, and finds nothing only
/// where no sheet has it.
pub proof fn lemma_first_with<K>(sheets: Seq<Sheet<K>>, number: u64)
    ensures
        match first_with(sheets, number) {
            Some(i) => 0 <= i < sheets.len() && sheets[i].number == number && forall|j: int|
                0 <= j < i ==> #[trigger] sheets[j].number != number,
            None => forall|j: int| 0 <= j < sheets.len() ==> #[trigger] sheets[j].number != number,
        },
    decreases sheets.len(),
{
    if sheets.len() > 0 && sheets[0].number != number {
        let rest = sheets.drop_first();
        lemma_first_with(rest, number);
        assert forall|j: int| 1 <= j < sheets.len() implies #[trigger] sheets[j].number
            == rest[j - 1].number by {}
        match first_with(rest, number) {
            Some(i) => {
                assert forall|j: int| 0 <= j < i + 1 implies #[trigger] sheets[j].number
                    != number by {
                    if j > 0 {
                        assert(rest[j - 1].number != number);
                    }
                }
            },
            None => {
                assert forall|j: int| 0 <= j < sheets.len() implies #[trigger] sheets[j].number
                    != number by {
                    if j > 0 {
                        assert(rest[j - 1].number != number);
                    }
                }
            },
        }
    }
}

/// The position of the sheet numbered `number`, the first where there are
/// several.
fn position_in<K>(sheets: &Vec<Sheet<K>>, number: u64) -> (found: Option<usize>)
    ensures
        match found {
            Some(p) => first_with(sheets@, number) == Some(p as int),
            None => first_with(sheets@, number) is None,
        },
{
    proof {
        lemma_first_with(sheets@, number);
    }
    let mut p: usize = 0;
    while p < sheets.len()
        invariant
            p <= sheets@.len(),
            forall|j: int| 0 <= j < p ==> #[trigger] sheets@[j].number != number,
            match first_with(sheets@, number) {
                Some(i) => 0 <= i < sheets@.len() && sheets@[i].number == number && forall|j: int|
                    0 <= j < i ==> #[trigger] sheets@[j].number != number,
                None => forall|j: int| 0 <= j < sheets@.len() ==> #[trigger] sheets@[j].number != number,
            },
        decreases sheets@.len() - p,
    {
        if sheets[p].number == number {
            return Some(p);
        }
        p += 1;
    }
    None
}

/// No two sheets of the snapshot carry the same number, as the server numbers
/// them.
pub open spec fn numbered_apart(drawn: Seq<Drawn>) -> bool {
    forall|i: int, j: int|
        0 <= i < drawn.len() && 0 <= j < drawn.len() && i != j ==> drawn[i].number != drawn[j].number
}

/// The position the snapshot puts at the front: the first sheet where it names
/// none.
pub open spec fn front_of(snapshot: DeckSnapshot) -> int {
    match snapshot.front {
        Some(f) => f as int,
        None => 0,
    }
}

/// The snapshot turns the page: the sheet it puts at the front is one the
/// Viewer did not have.
pub open spec fn turns_the_page<K>(before: Seq<Sheet<K>>, snapshot: DeckSnapshot) -> bool {
    let front = front_of(snapshot);
    0 <= front < snapshot.sheets@.len() && first_with(before, snapshot.sheets@[front].number) is None
}

/// The number of the sheet being looked at, if the cursor is on one.
pub open spec fn looked_at<K>(sheets: Seq<Sheet<K>>, cursor: int) -> Option<u64> {
    if 0 <= cursor < sheets.len() {
        Some(sheets[cursor].number)
    } else {
        None
    }
}

/// Where the cursor stands once a snapshot has been taken in: on the sheet that
/// was being looked at, if the snapshot did not turn the page and that sheet is
/// still there; at the snapshot's front otherwise.
pub open spec fn cursor_after<K>(
    before: Seq<Sheet<K>>,
    cursor: int,
    after: Seq<Sheet<K>>,
    snapshot: DeckSnapshot,
) -> int {
    match looked_at(before, cursor) {
        Some(number) => if turns_the_page(before, snapshot) {
            front_of(snapshot)
        } else {
            match first_with(after, number) {
                Some(p) => p,
                None => front_of(snapshot),
            }
        },
        None => front_of(snapshot),
    }
}

/// The back arrow's cursor: one back, and never before the first.
pub open spec fn cursor_back(cursor: int) -> int {
    if cursor > 0 {
        cursor - 1
    } else {
        0
    }
}

/// The forward arrow's cursor: one on, and never past the last of `len` sheets.
pub open spec fn cursor_forward(cursor: int, len: int) -> int {
    if cursor + 1 < len {
        cursor + 1
    } else if len > 0 {
        len - 1
    } else {
        0
    }
}

/// How many of the first `i` sheets of the snapshot carry `number`.
pub open spec fn drawn_count(drawn: Seq<Drawn>, i: int, number: u64) -> nat
    decreases i,
{
    if i <= 0 {
        0
    } else {
        drawn_count(drawn, i - 1, number) + if drawn[i - 1].number == number {
            1nat
        } else {
            0nat
        }
    }
}

/// How many of the sheets before position `k` carry `number`: the rank of the
/// sheet at `k` among the sheets with its number.
pub open spec fn rank_of<K>(sheets: Seq<Sheet<K>>, k: int, number: u64) -> nat
    decreases k,
{
    if k <= 0 {
        0
    } else {
        rank_of(sheets, k - 1, number) + if sheets[k - 1].number == number {
            1nat
        } else {
            0nat
        }
    }
}

/// The sheet at `k` carries `number` and has `rank` sheets with that number
/// before it.
pub open spec fn is_nth_with<K>(sheets: Seq<Sheet<K>>, number: u64, rank: nat, k: int) -> bool {
    0 <= k < sheets.len() && sheets[k].number == number && rank_of(sheets, k, number) == rank
}

/// The position of the sheet that is the `rank`-th (from zero) to carry
/// `number`, if there are that many.
pub open spec fn nth_with<K>(sheets: Seq<Sheet<K>>, number: u64, rank: nat) -> Option<int> {
    if exists|k: int| is_nth_with(sheets, number, rank, k) {
        Some(choose|k: int| is_nth_with(sheets, number, rank, k))
    } else {
        None
    }
}

/// Ranks grow along the sheets, and strictly past a sheet with the number.
proof fn lemma_rank_grows<K>(sheets: Seq<Sheet<K>>, k1: int, k2: int, number: u64)
    requires
        0 <= k1 <= k2 <= sheets.len(),
    ensures
        rank_of(sheets, k1, number) <= rank_of(sheets, k2, number),
        k1 < k2 && sheets[k1].number == number ==> rank_of(sheets, k1, number) < rank_of(
            sheets,
            k2,
            number,
        ),
    decreases k2 - k1,
{
    if k1 < k2 {
        lemma_rank_grows(sheets, k1, k2 - 1, number);
        if k1 < k2 - 1 {
            lemma_rank_grows(sheets, k1 + 1, k2 - 1, number);
            lemma_rank_grows(sheets, k1, k1 + 1, number);
        }
    }
}

/// Two sheets with the same number and the same rank are the same sheet.
proof fn lemma_rank_tells_apart<K>(sheets: Seq<Sheet<K>>, number: u64, rank: nat, k1: int, k2: int)
    requires
        is_nth_with(sheets, number, rank, k1),
        is_nth_with(sheets, number, rank, k2),
    ensures
        k1 == k2,
{
    if k1 < k2 {
        lemma_rank_grows(sheets, k1, k2, number);
    } else if k2 < k1 {
        lemma_rank_grows(sheets, k2, k1, number);
    }
}

/// Below the rank at `k`, every rank is taken by some earlier sheet with the
/// number.
proof fn lemma_every_lower_rank_is_taken<K>(sheets: Seq<Sheet<K>>, k: int, number: u64, rank: nat)
    requires
        0 <= k <= sheets.len(),
        rank < rank_of(sheets, k, number),
    ensures
        exists|k2: int| 0 <= k2 < k && #[trigger] is_nth_with(sheets, number, rank, k2),
    decreases k,
{
    if rank < rank_of(sheets, k - 1, number) {
        lemma_every_lower_rank_is_taken(sheets, k - 1, number, rank);
        let k2 = choose|k2: int| 0 <= k2 < k - 1 && #[trigger] is_nth_with(sheets, number, rank, k2);
        assert(is_nth_with(sheets, number, rank, k2));
    } else {
        assert(is_nth_with(sheets, number, rank, k - 1));
    }
}

/// The sheet of rank zero is the first with the number.
proof fn lemma_rank_zero_is_the_first<K>(sheets: Seq<Sheet<K>>, number: u64)
    ensures
        nth_with(sheets, number, 0) == first_with(sheets, number),
{
    lemma_first_with(sheets, number);
    match first_with(sheets, number) {
        Some(f) => {
            assert forall|j: int| 0 <= j <= f implies #[trigger] rank_of(sheets, j, number) == 0 by {
                lemma_rank_grows(sheets, j, f, number);
                if rank_of(sheets, f, number) > 0 {
                    lemma_every_lower_rank_is_taken(sheets, f, number, 0);
                    let k2 = choose|k2: int| 0 <= k2 < f && #[trigger] is_nth_with(sheets, number, 0, k2);
                    assert(sheets[k2].number == number);
                }
            }
            assert(is_nth_with(sheets, number, 0, f));
            let k = choose|k: int| is_nth_with(sheets, number, 0, k);
            lemma_rank_tells_apart(sheets, number, 0, k, f);
        },
        None => {
            if exists|k: int| is_nth_with(sheets, number, 0, k) {
                let k = choose|k: int| is_nth_with(sheets, number, 0, k);
                assert(sheets[k].number == number);
            }
        },
    }
}

/// Over a snapshot numbered apart, no sheet's number comes before it.
proof fn lemma_apart_counts_nothing_before(drawn: Seq<Drawn>, i: int)
    requires
        numbered_apart(drawn),
        0 <= i < drawn.len(),
    ensures
        drawn_count(drawn, i, drawn[i].number) == 0,
{
    lemma_count_zero_below(drawn, i, i);
}

proof fn lemma_count_zero_below(drawn: Seq<Drawn>, i: int, j: int)
    requires
        numbered_apart(drawn),
        0 <= j <= i < drawn.len(),
    ensures
        drawn_count(drawn, j, drawn[i].number) == 0,
    decreases j,
{
    if j > 0 {
        lemma_count_zero_below(drawn, i, j - 1);
        assert(drawn[j - 1].number != drawn[i].number);
    }
}

/// While a deck takes in a snapshot: the sheets not taken yet, `previous`, are
/// the ones the deck had at the positions `origin`, in order; and after the
/// first `i` sheets of the snapshot, a sheet the deck had has been taken
/// exactly when that many sheets of the snapshot carried its number before its
/// rank came up.
#[verifier::opaque]
spec fn tracks<K>(
    before: Seq<Sheet<K>>,
    origin: Seq<int>,
    previous: Seq<Sheet<K>>,
    drawn: Seq<Drawn>,
    i: int,
) -> bool {
    &&& previous.len() == origin.len()
    &&& forall|t: int|
        0 <= t < origin.len() ==> 0 <= #[trigger] origin[t] < before.len() && previous[t]
            == before[origin[t]]
    &&& forall|t1: int, t2: int|
        0 <= t1 < t2 < origin.len() ==> #[trigger] origin[t1] < #[trigger] origin[t2]
    &&& forall|k: int|
        #![trigger before[k]]
        0 <= k < before.len() ==> ((exists|t: int| 0 <= t < origin.len() && #[trigger] origin[t] == k)
            <==> rank_of(before, k, before[k].number) >= drawn_count(drawn, i, before[k].number))
}

spec fn taken_none<K>(before: Seq<Sheet<K>>) -> Seq<int> {
    Seq::new(before.len(), |k: int| k)
}

proof fn lemma_nothing_taken_yet<K>(before: Seq<Sheet<K>>, drawn: Seq<Drawn>)
    ensures
        tracks(before, taken_none(before), before, drawn, 0),
{
    reveal(tracks);
    let origin = taken_none(before);
    assert forall|k: int|
        #![trigger before[k]]
        0 <= k < before.len() implies (exists|t: int|
            0 <= t < origin.len() && #[trigger] origin[t] == k) by {
        assert(origin[k] == k);
    }
}

proof fn lemma_count_step(drawn: Seq<Drawn>, i: int)
    requires
        0 <= i,
    ensures
        forall|m: u64| #[trigger] drawn_count(drawn, i + 1, m) == drawn_count(drawn, i, m)
            + if m == drawn[i].number {
            1nat
        } else {
            0nat
        },
{
}

/// The first sheet not taken yet with the number of the snapshot's next sheet
/// is the one of the rank that sheet asks for, and taking it keeps the
/// bookkeeping.
proof fn lemma_taking<K>(
    before: Seq<Sheet<K>>,
    origin: Seq<int>,
    previous: Seq<Sheet<K>>,
    drawn: Seq<Drawn>,
    i: int,
    p: int,
)
    requires
        tracks(before, origin, previous, drawn, i),
        0 <= i < drawn.len(),
        first_with(previous, drawn[i].number) == Some(p),
    ensures
        0 <= p < origin.len(),
        nth_with(before, drawn[i].number, drawn_count(drawn, i, drawn[i].number)) == Some(origin[p]),
        previous[p] == before[origin[p]],
        tracks(before, origin.remove(p), previous.remove(p), drawn, i + 1),
{
    lemma_first_with(previous, drawn[i].number);
    lemma_the_first_left_is_of_the_rank_asked(before, origin, previous, drawn, i, p);
    lemma_taking_keeps_the_order(before, origin, previous, drawn, i, p);
    lemma_taking_keeps_the_count(before, origin, previous, drawn, i, p);
    reveal(tracks);
}

proof fn lemma_the_first_left_is_of_the_rank_asked<K>(
    before: Seq<Sheet<K>>,
    origin: Seq<int>,
    previous: Seq<Sheet<K>>,
    drawn: Seq<Drawn>,
    i: int,
    p: int,
)
    requires
        tracks(before, origin, previous, drawn, i),
        0 <= i < drawn.len(),
        first_with(previous, drawn[i].number) == Some(p),
    ensures
        0 <= p < origin.len(),
        is_nth_with(before, drawn[i].number, drawn_count(drawn, i, drawn[i].number), origin[p]),
        nth_with(before, drawn[i].number, drawn_count(drawn, i, drawn[i].number)) == Some(origin[p]),
        previous[p] == before[origin[p]],
{
    reveal(tracks);
    lemma_first_with(previous, drawn[i].number);
    let number = drawn[i].number;
    let count = drawn_count(drawn, i, number);
    let k0 = origin[p];
    assert(before[k0].number == number);
    assert(exists|t: int| 0 <= t < origin.len() && #[trigger] origin[t] == k0);
    assert(rank_of(before, k0, number) >= count);
    if rank_of(before, k0, number) > count {
        lemma_every_lower_rank_is_taken(before, k0, number, count);
        let k2 = choose|k2: int| 0 <= k2 < k0 && #[trigger] is_nth_with(before, number, count, k2);
        assert(before[k2].number == number);
        assert(rank_of(before, k2, before[k2].number) >= drawn_count(drawn, i, before[k2].number));
        let t2 = choose|t: int| 0 <= t < origin.len() && #[trigger] origin[t] == k2;
        assert(previous[t2].number == number);
        if t2 > p {
            assert(origin[p] < origin[t2]);
        }
        assert(t2 < p);
    }
    assert(is_nth_with(before, number, count, k0));
    let chosen = choose|k: int| is_nth_with(before, number, count, k);
    lemma_rank_tells_apart(before, number, count, chosen, k0);
}

proof fn lemma_taking_keeps_the_order<K>(
    before: Seq<Sheet<K>>,
    origin: Seq<int>,
    previous: Seq<Sheet<K>>,
    drawn: Seq<Drawn>,
    i: int,
    p: int,
)
    requires
        tracks(before, origin, previous, drawn, i),
        0 <= p < origin.len(),
    ensures
        previous.remove(p).len() == origin.remove(p).len(),
        forall|t: int|
            0 <= t < origin.remove(p).len() ==> 0 <= #[trigger] origin.remove(p)[t] < before.len()
                && previous.remove(p)[t] == before[origin.remove(p)[t]],
        forall|t1: int, t2: int|
            0 <= t1 < t2 < origin.remove(p).len() ==> #[trigger] origin.remove(p)[t1]
                < #[trigger] origin.remove(p)[t2],
{
    reveal(tracks);
    let origin2 = origin.remove(p);
    let previous2 = previous.remove(p);
    assert forall|t: int| 0 <= t < origin2.len() implies 0 <= #[trigger] origin2[t] < before.len()
        && previous2[t] == before[origin2[t]] by {
        if t >= p {
            assert(origin2[t] == origin[t + 1]);
        }
    }
    assert forall|t1: int, t2: int| 0 <= t1 < t2 < origin2.len() implies #[trigger] origin2[t1]
        < #[trigger] origin2[t2] by {
        let u1 = if t1 < p {
            t1
        } else {
            t1 + 1
        };
        let u2 = if t2 < p {
            t2
        } else {
            t2 + 1
        };
        assert(origin2[t1] == origin[u1]);
        assert(origin2[t2] == origin[u2]);
    }
}

proof fn lemma_taking_keeps_the_count<K>(
    before: Seq<Sheet<K>>,
    origin: Seq<int>,
    previous: Seq<Sheet<K>>,
    drawn: Seq<Drawn>,
    i: int,
    p: int,
)
    requires
        tracks(before, origin, previous, drawn, i),
        0 <= i < drawn.len(),
        0 <= p < origin.len(),
        is_nth_with(before, drawn[i].number, drawn_count(drawn, i, drawn[i].number), origin[p]),
    ensures
        forall|k: int|
            #![trigger before[k]]
            0 <= k < before.len() ==> ((exists|t: int|
                0 <= t < origin.remove(p).len() && #[trigger] origin.remove(p)[t] == k) <==> rank_of(
                before,
                k,
                before[k].number,
            ) >= drawn_count(drawn, i + 1, before[k].number)),
{
    reveal(tracks);
    lemma_count_step(drawn, i);
    let number = drawn[i].number;
    let count = drawn_count(drawn, i, number);
    let k0 = origin[p];
    let origin2 = origin.remove(p);
    assert forall|k: int|
        #![trigger before[k]]
        0 <= k < before.len() implies ((exists|t: int|
            0 <= t < origin2.len() && #[trigger] origin2[t] == k) <==> rank_of(
            before,
            k,
            before[k].number,
        ) >= drawn_count(drawn, i + 1, before[k].number)) by {
        let m = before[k].number;
        if k == k0 {
            if exists|t: int| 0 <= t < origin2.len() && #[trigger] origin2[t] == k {
                let t = choose|t: int| 0 <= t < origin2.len() && #[trigger] origin2[t] == k;
                if t < p {
                    assert(origin[t] == k0);
                } else {
                    assert(origin[t + 1] == k0);
                }
            }
        } else {
            if m == number && rank_of(before, k, m) == count {
                lemma_rank_tells_apart(before, number, count, k, k0);
            }
            if exists|t: int| 0 <= t < origin.len() && #[trigger] origin[t] == k {
                let t = choose|t: int| 0 <= t < origin.len() && #[trigger] origin[t] == k;
                if t < p {
                    assert(origin2[t] == k);
                } else {
                    assert(t != p);
                    assert(origin2[t - 1] == k);
                }
            }
            if exists|t: int| 0 <= t < origin2.len() && #[trigger] origin2[t] == k {
                let t = choose|t: int| 0 <= t < origin2.len() && #[trigger] origin2[t] == k;
                if t < p {
                    assert(origin[t] == k);
                } else {
                    assert(origin[t + 1] == k);
                }
            }
        }
    }
}

/// Where no sheet not taken yet carries the number of the snapshot's next
/// sheet, the deck had no sheet of the rank it asks for, and the bookkeeping
/// holds for the next sheet.
proof fn lemma_fresh<K>(
    before: Seq<Sheet<K>>,
    origin: Seq<int>,
    previous: Seq<Sheet<K>>,
    drawn: Seq<Drawn>,
    i: int,
)
    requires
        tracks(before, origin, previous, drawn, i),
        0 <= i < drawn.len(),
        first_with(previous, drawn[i].number) is None,
    ensures
        nth_with(before, drawn[i].number, drawn_count(drawn, i, drawn[i].number)) is None,
        tracks(before, origin, previous, drawn, i + 1),
{
    reveal(tracks);
    lemma_first_with(previous, drawn[i].number);
    lemma_count_step(drawn, i);
    let number = drawn[i].number;
    let count = drawn_count(drawn, i, number);
    if exists|k: int| is_nth_with(before, number, count, k) {
        let k = choose|k: int| is_nth_with(before, number, count, k);
        assert(before[k].number == number);
        let t = choose|t: int| 0 <= t < origin.len() && #[trigger] origin[t] == k;
        assert(previous[t].number == number);
    }
    assert forall|k: int|
        #![trigger before[k]]
        0 <= k < before.len() implies ((exists|t: int|
            0 <= t < origin.len() && #[trigger] origin[t] == k) <==> rank_of(
            before,
            k,
            before[k].number,
        ) >= drawn_count(drawn, i + 1, before[k].number)) by {
        if before[k].number == number {
            if exists|t: int| 0 <= t < origin.len() && #[trigger] origin[t] == k {
                let t = choose|t: int| 0 <= t < origin.len() && #[trigger] origin[t] == k;
                assert(previous[t].number == number);
            }
        }
    }
}

/// The deck `after`, looking at `after_cursor`, is the deck `before`, looking at
/// `before_cursor`, once it has taken in `snapshot`: one sheet per sheet of the
/// snapshot and in its order. The `c`-th sheet of the snapshot to carry a number
/// is the `c`-th sheet the deck had with that number, the very sheet with what
/// the Viewer kept of it, where the deck had that many; otherwise it is born
/// from `born`, under the snapshot's name. The cursor is where `cursor_after`
/// puts it.
pub open spec fn accepted<K, F: Fn() -> K>(
    before: Seq<Sheet<K>>,
    before_cursor: int,
    after: Seq<Sheet<K>>,
    after_cursor: int,
    snapshot: DeckSnapshot,
    born: F,
) -> bool {
    &&& after.len() == snapshot.sheets@.len()
    &&& forall|i: int|
        0 <= i < snapshot.sheets@.len() ==> (#[trigger] after[i]).number
            == snapshot.sheets@[i].number
    &&& forall|i: int|
        0 <= i < snapshot.sheets@.len() ==> match nth_with(
            before,
            snapshot.sheets@[i].number,
            drawn_count(snapshot.sheets@, i, snapshot.sheets@[i].number),
        ) {
            Some(k) => #[trigger] after[i] == before[k],
            None => {
                &&& after[i].id == snapshot.sheets@[i].id
                &&& call_ensures(born, (), after[i].keep)
            },
        }
    &&& after_cursor == cursor_after(before, before_cursor, after, snapshot)
}

/// The sheets there are and which one is being looked at.
#[derive(Debug)]
pub struct Deck<K> {
    sheets: Vec<Sheet<K>>,
    cursor: usize,
}

impl<K> Default for Deck<K> {
    /// An empty deck, looking at the first place.
    fn default() -> (deck: Self)
        ensures
            deck.sheets_view().len() == 0,
            deck.cursor_view() == 0,
    {
        Deck { sheets: Vec::new(), cursor: 0 }
    }
}

impl<K> Deck<K> {
    /// The sheets, in creation order.
    pub closed spec fn sheets_view(&self) -> Seq<Sheet<K>> {
        self.sheets@
    }

    /// The position being looked at.
    pub closed spec fn cursor_view(&self) -> int {
        self.cursor as int
    }

    /// The sheets, in creation order.
    pub fn sheets(&self) -> (sheets: &[Sheet<K>])
        ensures
            sheets@ == self.sheets_view(),
    {
        self.sheets.as_slice()
    }

    /// The position being looked at.
    pub fn cursor(&self) -> (cursor: usize)
        ensures
            cursor == self.cursor_view(),
    {
        self.cursor
    }

    /// The position of the sheet numbered `number`.
    pub fn position(&self, number: u64) -> (found: Option<usize>)
        ensures
            match found {
                Some(p) => first_with(self.sheets_view(), number) == Some(p as int),
                None => first_with(self.sheets_view(), number) is None,
            },
    {
        position_in(&self.sheets, number)
    }

    /// The sheet being looked at, if the cursor is on one.
    pub fn showing(&self) -> (sheet: Option<&Sheet<K>>)
        ensures
            match sheet {
                Some(s) => 0 <= self.cursor_view() < self.sheets_view().len() && *s
                    == self.sheets_view()[self.cursor_view()],
                None => self.cursor_view() >= self.sheets_view().len(),
            },
    {
        if self.cursor < self.sheets.len() {
            Some(&self.sheets[self.cursor])
        } else {
            None
        }
    }

    /// Takes in the whole flipchart. Each of its sheets the Viewer already had
    /// keeps what the Viewer kept of it; each new one is born from `born`. The
    /// cursor stays on the sheet being looked at unless the snapshot turned the
    /// page or that sheet is gone; then it goes to the snapshot's front.
    pub fn accept<F: Fn() -> K>(&mut self, snapshot: &DeckSnapshot, born: F)
        requires
            call_requires(born, ()),
        ensures
            accepted(
                old(self).sheets_view(),
                old(self).cursor_view(),
                final(self).sheets_view(),
                final(self).cursor_view(),
                *snapshot,
                born,
            ),
    {
        let looked_at = match self.showing() {
            Some(sheet) => Some(sheet.number),
            None => None,
        };
        let front = match snapshot.front {
            Some(f) => f,
            None => 0,
        };
        let turned = if front < snapshot.sheets.len() {
            self.position(snapshot.sheets[front].number).is_none()
        } else {
            false
        };

        let mut previous: Vec<Sheet<K>> = Vec::new();
        std::mem::swap(&mut previous, &mut self.sheets);
        let ghost before = previous@;
        let ghost drawn = snapshot.sheets@;
        let ghost mut origin: Seq<int> = Seq::new(before.len(), |k: int| k);
        assert(origin == taken_none(before));
        proof {
            lemma_nothing_taken_yet(before, drawn);
        }
        let n = snapshot.sheets.len();
        let mut i: usize = 0;
        while i < n
            invariant
                n == drawn.len(),
                drawn == snapshot.sheets@,
                i <= n,
                call_requires(born, ()),
                self.sheets@.len() == i,
                tracks(before, origin, previous@, drawn, i as int),
                forall|j: int|
                    0 <= j < i ==> (#[trigger] self.sheets@[j]).number == drawn[j].number,
                forall|j: int|
                    0 <= j < i ==> match nth_with(
                        before,
                        drawn[j].number,
                        drawn_count(drawn, j, drawn[j].number),
                    ) {
                        Some(k) => #[trigger] self.sheets@[j] == before[k],
                        None => {
                            &&& self.sheets@[j].id == drawn[j].id
                            &&& call_ensures(born, (), self.sheets@[j].keep)
                        },
                    },
            decreases n - i,
        {
            let drawn_sheet = &snapshot.sheets[i];
            proof {
                lemma_first_with(previous@, drawn_sheet.number);
            }
            let sheet = match position_in(&previous, drawn_sheet.number) {
                Some(p) => {
                    proof {
                        lemma_taking(before, origin, previous@, drawn, i as int, p as int);
                        origin = origin.remove(p as int);
                    }
                    previous.remove(p)
                },
                None => {
                    proof {
                        lemma_fresh(before, origin, previous@, drawn, i as int);
                    }
                    Sheet { number: drawn_sheet.number, id: drawn_sheet.id.clone(), keep: born() }
                },
            };
            self.sheets.push(sheet);
            i += 1;
        }

        self.cursor = match looked_at {
            Some(number) => if turned {
                front
            } else {
                match self.position(number) {
                    Some(p) => p,
                    None => front,
                }
            },
            None => front,
        };
    }

    /// The sheet being looked at, to write what the Viewer keeps of it.
    pub fn showing_mut(&mut self) -> (sheet: Option<&mut Sheet<K>>)
        ensures
            final(self).cursor_view() == old(self).cursor_view(),
            if 0 <= old(self).cursor_view() < old(self).sheets_view().len() {
                &&& sheet matches Some(s)
                &&& *s == old(self).sheets_view()[old(self).cursor_view()]
                &&& final(self).sheets_view() == old(self).sheets_view().update(
                    old(self).cursor_view(),
                    *final(s),
                )
            } else {
                &&& sheet is None
                &&& final(self).sheets_view() == old(self).sheets_view()
            },
    {
        if self.cursor < self.sheets.len() {
            Some(&mut self.sheets[self.cursor])
        } else {
            None
        }
    }

    /// The sheet numbered `number`, to write what the Viewer keeps of it.
    pub fn sheet_mut(&mut self, number: u64) -> (found: Option<&mut Sheet<K>>)
        ensures
            final(self).cursor_view() == old(self).cursor_view(),
            match first_with(old(self).sheets_view(), number) {
                Some(p) => {
                    &&& 0 <= p < old(self).sheets_view().len()
                    &&& found matches Some(sheet)
                    &&& *sheet == old(self).sheets_view()[p]
                    &&& final(self).sheets_view() == old(self).sheets_view().update(p, *final(sheet))
                },
                None => found is None && final(self).sheets_view() == old(self).sheets_view(),
            },
    {
        proof {
            lemma_first_with(self.sheets@, number);
        }
        match position_in(&self.sheets, number) {
            Some(p) => Some(&mut self.sheets[p]),
            None => None,
        }
    }

    /// Whether the back arrow has a sheet to go back to.
    pub fn has_previous(&self) -> (live: bool)
        ensures
            live == (self.cursor_view() > 0),
    {
        self.cursor > 0
    }

    /// Whether the forward arrow has a sheet to go on to.
    pub fn has_next(&self) -> (live: bool)
        ensures
            live == (self.cursor_view() + 1 < self.sheets_view().len()),
    {
        self.cursor < self.sheets.len().saturating_sub(1)
    }

    /// The back arrow: one sheet back, down to the first.
    pub fn back(&mut self)
        ensures
            final(self).sheets_view() == old(self).sheets_view(),
            final(self).cursor_view() == cursor_back(old(self).cursor_view()),
    {
        self.cursor = self.cursor.saturating_sub(1);
    }

    /// The forward arrow: one sheet on, up to the last.
    pub fn forward(&mut self)
        ensures
            final(self).sheets_view() == old(self).sheets_view(),
            final(self).cursor_view() == cursor_forward(
                old(self).cursor_view(),
                old(self).sheets_view().len() as int,
            ),
    {
        let last = self.sheets.len().saturating_sub(1);
        self.cursor = if self.cursor < last {
            self.cursor + 1
        } else {
            last
        };
    }
}

/// A live sheet keeps what the Viewer already had of it, and a replaced view,
/// which the server hands over under a new number, is a new sheet born afresh.
/// Over a snapshot numbered apart, as the server numbers them, the sheet kept is
/// the one the deck had under that number.
pub proof fn a_live_sheet_keeps_what_it_had<K, F: Fn() -> K>(
    before: Seq<Sheet<K>>,
    before_cursor: int,
    after: Seq<Sheet<K>>,
    after_cursor: int,
    snapshot: DeckSnapshot,
    born: F,
    i: int,
)
    requires
        accepted(before, before_cursor, after, after_cursor, snapshot, born),
        0 <= i < snapshot.sheets@.len(),
    ensures
        numbered_apart(snapshot.sheets@) && first_with(before, snapshot.sheets@[i].number) is Some
            ==> after[i] == before[first_with(before, snapshot.sheets@[i].number).unwrap()],
        first_with(before, snapshot.sheets@[i].number) is None ==> after[i].id
            == snapshot.sheets@[i].id && call_ensures(born, (), after[i].keep),
{
    let number = snapshot.sheets@[i].number;
    assert(after[i].number == number);
    lemma_first_with(before, number);
    if numbered_apart(snapshot.sheets@) {
        lemma_apart_counts_nothing_before(snapshot.sheets@, i);
        lemma_rank_zero_is_the_first(before, number);
    }
    if first_with(before, number) is None {
        if exists|k: int| is_nth_with(before, number, drawn_count(snapshot.sheets@, i, number), k) {
            let k = choose|k: int| is_nth_with(before, number, drawn_count(snapshot.sheets@, i, number), k);
            assert(before[k].number == number);
        }
    }
}

/// A `show` turns the page to its sheet, wherever that sheet stands in the
/// snapshot: when the sheet at the snapshot's front carries a number no sheet
/// of the deck had, the cursor goes to that front, whatever the user was
/// looking at, and the sheet there is the one the snapshot put there.
pub proof fn a_show_turns_the_page_to_its_sheet<K, F: Fn() -> K>(
    before: Seq<Sheet<K>>,
    before_cursor: int,
    after: Seq<Sheet<K>>,
    after_cursor: int,
    snapshot: DeckSnapshot,
    born: F,
    front: usize,
)
    requires
        accepted(before, before_cursor, after, after_cursor, snapshot, born),
        snapshot.front == Some(front) || (snapshot.front is None && front == 0),
        0 <= front < snapshot.sheets@.len(),
        forall|k: int| 0 <= k < before.len() ==> #[trigger] before[k].number
            != snapshot.sheets@[front as int].number,
    ensures
        after_cursor == front,
        0 <= after_cursor < after.len(),
        after[after_cursor].number == snapshot.sheets@[front as int].number,
        after[after_cursor].id == snapshot.sheets@[front as int].id,
{
    lemma_first_with(before, snapshot.sheets@[front as int].number);
    let number = snapshot.sheets@[front as int].number;
    let count = drawn_count(snapshot.sheets@, front as int, number);
    if exists|k: int| is_nth_with(before, number, count, k) {
        let k = choose|k: int| is_nth_with(before, number, count, k);
        assert(before[k].number == number);
    }
    assert(after[front as int].number == number);
}

/// The next `show` overwrites the user's cursor: a snapshot whose front is a
/// sheet the Viewer did not have puts the cursor on it.
pub proof fn the_next_show_overwrites_the_cursor<K>(
    before: Seq<Sheet<K>>,
    cursor: int,
    after: Seq<Sheet<K>>,
    snapshot: DeckSnapshot,
)
    requires
        turns_the_page(before, snapshot),
    ensures
        cursor_after(before, cursor, after, snapshot) == front_of(snapshot),
{
}

/// A snapshot that does not turn the page (a `clear`, or a `show` over the sheet
/// at the front) leaves the user looking at the sheet they were looking at, as
/// long as it is still there.
pub proof fn a_clear_leaves_the_user_where_they_were<K>(
    before: Seq<Sheet<K>>,
    cursor: int,
    after: Seq<Sheet<K>>,
    snapshot: DeckSnapshot,
)
    requires
        !turns_the_page(before, snapshot),
        looked_at(before, cursor) is Some,
        first_with(after, looked_at(before, cursor).unwrap()) is Some,
    ensures
        looked_at(after, cursor_after(before, cursor, after, snapshot)) == looked_at(before, cursor),
{
    lemma_first_with(after, looked_at(before, cursor).unwrap());
}

/// Removing the sheet being looked at moves the user to the one at the front.
pub proof fn removing_the_looked_at_sheet_goes_to_the_front<K>(
    before: Seq<Sheet<K>>,
    cursor: int,
    after: Seq<Sheet<K>>,
    snapshot: DeckSnapshot,
)
    requires
        looked_at(before, cursor) is Some,
        first_with(after, looked_at(before, cursor).unwrap()) is None,
    ensures
        cursor_after(before, cursor, after, snapshot) == front_of(snapshot),
{
}

/// After a snapshot whose front is one of its sheets, the cursor is on a sheet;
/// after an empty one, there is no sheet to show.
pub proof fn the_cursor_lands_on_a_sheet<K>(
    before: Seq<Sheet<K>>,
    cursor: int,
    after: Seq<Sheet<K>>,
    snapshot: DeckSnapshot,
)
    requires
        after.len() == snapshot.sheets@.len(),
    ensures
        0 <= front_of(snapshot) < after.len() ==> looked_at(
            after,
            cursor_after(before, cursor, after, snapshot),
        ) is Some,
        after.len() == 0 ==> looked_at(after, cursor_after(before, cursor, after, snapshot)) is None,
{
    if let Some(n) = looked_at(before, cursor) {
        lemma_first_with(after, n);
    }
}

/// The arrows never leave the deck: the first sheet has no previous and the
/// last has no next.
pub proof fn the_arrows_stay_within_the_deck(cursor: int, len: int)
    requires
        0 <= cursor < len,
    ensures
        0 <= cursor_back(cursor) < len,
        0 <= cursor_forward(cursor, len) < len,
        cursor == 0 ==> cursor_back(cursor) == 0,
        cursor == len - 1 ==> cursor_forward(cursor, len) == cursor,
{
}

/// An arrow is live exactly where it moves the cursor.
pub proof fn an_arrow_is_live_where_it_moves(cursor: int, len: int)
    requires
        0 <= cursor,
    ensures
        (cursor > 0) == (cursor_back(cursor) != cursor),
        (cursor + 1 < len) == (cursor_forward(cursor, len) == cursor + 1),
{
}

/// The forward arrow returns to the sheet the back arrow left.
pub proof fn forward_undoes_back(cursor: int, len: int)
    requires
        0 < cursor < len,
    ensures
        cursor_forward(cursor_back(cursor), len) == cursor,
{
}

} // verus!
