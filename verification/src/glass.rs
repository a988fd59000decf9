//! The glass: the ink the user marks a sheet with, and the hand and the pencil,
//! the two ways of holding it.
use vstd::prelude::*;
use vstd::std_specs::cmp::PartialEqSpec;

verus! {

/// The two ways to hold the glass. The hand pans, the pencil inks; they never
/// fight over the drag. The glass is born in the hand: marking is the
/// exception, not the habit.
#[derive(Debug, Clone, Copy, PartialEq, Eq, Structural)]
pub enum Tool {
    Hand,
    Pencil,
}

impl Default for Tool {
    /// The tool the glass is born with.
    fn default() -> (tool: Tool)
        ensures
            tool == Tool::Hand,
    {
        Tool::Hand
    }
}

/// Whether the point `at` is the one the stroke already ends on, as `==` on the
/// points says where it follows its specification.
pub open spec fn ends_on<P: PartialEq>(stroke: Seq<P>, at: P) -> bool {
    stroke.len() > 0 && P::obeys_eq_spec() && stroke.last().eq_spec(&at)
}

/// The strokes with a new one begun at `at`.
pub open spec fn begun<P>(strokes: Seq<Seq<P>>, at: P) -> Seq<Seq<P>> {
    strokes.push(seq![at])
}

/// The strokes with the last one taken back, down to none.
pub open spec fn undone<P>(strokes: Seq<Seq<P>>) -> Seq<Seq<P>> {
    if strokes.len() > 0 {
        strokes.drop_last()
    } else {
        strokes
    }
}

/// The strokes with `at` added to the end of the last one.
pub open spec fn extended<P>(strokes: Seq<Seq<P>>, at: P) -> Seq<Seq<P>> {
    strokes.update(strokes.len() - 1, strokes.last().push(at))
}

/// The ink over one sheet: its strokes in the sheet's own coordinates, so that
/// what was drawn on something stays on it across zoom and pan. Each stroke
/// holds the points of one run of the pencil, from its down to its up.
#[derive(Debug)]
pub struct Glass<P> {
    strokes: Vec<Vec<P>>,
}

impl<P> View for Glass<P> {
    type V = Seq<Seq<P>>;

    closed spec fn view(&self) -> Seq<Seq<P>> {
        self.strokes@.map_values(|stroke: Vec<P>| stroke@)
    }
}

impl<P> Default for Glass<P> {
    /// A sheet is born with clean glass.
    fn default() -> (glass: Self)
        ensures
            glass@ == Seq::<Seq<P>>::empty(),
    {
        let glass = Glass { strokes: Vec::new() };
        assert(glass@ =~= Seq::<Seq<P>>::empty());
        glass
    }
}

impl<P: PartialEq> Glass<P> {
    /// The strokes there are, in the sheet's own coordinates.
    pub fn strokes(&self) -> (strokes: &[Vec<P>])
        ensures
            strokes@.map_values(|stroke: Vec<P>| stroke@) == self@,
    {
        self.strokes.as_slice()
    }

    /// Pencil down: a stroke begins where it touches.
    pub fn began(&mut self, at: P)
        ensures
            final(self)@ == begun(old(self)@, at),
    {
        let ghost before = self@;
        let mut stroke = Vec::new();
        stroke.push(at);
        assert(stroke@ =~= seq![at]);
        self.strokes.push(stroke);
        assert(self@ =~= before.push(seq![at]));
    }

    /// The drag's next point. A hand that holds still adds nothing, and a point
    /// with no stroke open before it starts none: the pencil was never put down.
    pub fn continued(&mut self, at: P)
        ensures
            old(self)@.len() == 0 ==> final(self)@ == old(self)@,
            old(self)@.len() > 0 && ends_on(old(self)@.last(), at) ==> final(self)@ == old(self)@,
            old(self)@.len() > 0 && P::obeys_eq_spec() && !ends_on(old(self)@.last(), at)
                ==> final(self)@ == extended(old(self)@, at),
            final(self)@ == old(self)@ || (old(self)@.len() > 0 && final(self)@ == extended(
                old(self)@,
                at,
            )),
    {
        let n = self.strokes.len();
        if n == 0 {
            return;
        }
        let ghost before = self@;
        let points = self.strokes[n - 1].len();
        let still = points > 0 && self.strokes[n - 1][points - 1] == at;
        if !still {
            let stroke = &mut self.strokes[n - 1];
            stroke.push(at);
            assert(self@ =~= before.update(n - 1, before.last().push(at)));
        }
    }

    /// Undo takes back the last stroke, down to none. There is no eraser.
    pub fn undo(&mut self)
        ensures
            final(self)@ == undone(old(self)@),
    {
        let ghost before = self@;
        let _ = self.strokes.pop();
        assert(self@ =~= if before.len() > 0 {
            before.drop_last()
        } else {
            before
        });
    }

    /// Whether the glass carries any ink.
    pub fn is_empty(&self) -> (empty: bool)
        ensures
            empty == (self@.len() == 0),
    {
        self.strokes.len() == 0
    }
}

/// Undo takes back exactly the stroke that was begun last: the glass after a
/// `began` and an `undo` is the glass before them. Undo on clean glass leaves it
/// clean.
pub proof fn undo_takes_back_the_last_stroke<P>(strokes: Seq<Seq<P>>, at: P)
    ensures
        undone(begun(strokes, at)) == strokes,
        undone(Seq::<Seq<P>>::empty()) == Seq::<Seq<P>>::empty(),
{
    assert(begun(strokes, at).drop_last() =~= strokes);
}

/// Undo takes back the whole last stroke, however many points it holds, and
/// leaves every stroke before it as it was: a stroke begun and then continued
/// is taken back in one undo.
pub proof fn undo_takes_back_a_whole_stroke<P>(strokes: Seq<Seq<P>>, at: P, next: P)
    ensures
        strokes.len() > 0 ==> undone(strokes).len() == strokes.len() - 1,
        forall|i: int| 0 <= i < strokes.len() - 1 ==> #[trigger] undone(strokes)[i] == strokes[i],
        undone(extended(begun(strokes, at), next)) == strokes,
{
    assert(extended(begun(strokes, at), next).drop_last() =~= strokes);
}

/// A stroke that `continued` extends keeps every point it had and the strokes
/// before it, and only the last stroke ever grows.
pub proof fn continuing_only_grows_the_last_stroke<P>(strokes: Seq<Seq<P>>, at: P)
    requires
        strokes.len() > 0,
    ensures
        extended(strokes, at).len() == strokes.len(),
        forall|i: int| 0 <= i < strokes.len() - 1 ==> #[trigger] extended(strokes, at)[i] == strokes[i],
        extended(strokes, at).last() == strokes.last().push(at),
{
}

} // verus!
