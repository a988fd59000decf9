//! The scale a sheet is painted at, rounded to eighths: painting on every
//! pixel of a drag would put the whole drawing through the rasterizer dozens of
//! times a second.
use vstd::prelude::*;

verus! {

/// A scale, as a whole number of eighths, never zero.
#[derive(Clone, Copy, PartialEq, Eq, Hash, Debug, Structural)]
pub struct Scale(u32);

impl Scale {
    #[verifier::type_invariant]
    spec fn never_zero(self) -> bool {
        self.0 >= 1
    }

    /// The number of eighths.
    pub closed spec fn eighths_view(self) -> nat {
        self.0 as nat
    }

    /// The scale of `eighths` eighths; a scale that would round to nothing is
    /// one eighth.
    pub fn of_eighths(eighths: u32) -> (scale: Scale)
        ensures
            scale.eighths_view() == if eighths >= 1 {
                eighths as nat
            } else {
                1
            },
    {
        if eighths >= 1 {
            Scale(eighths)
        } else {
            Scale(1)
        }
    }

    /// The number of eighths: one at the least, so the scale never reaches
    /// zero.
    pub fn eighths(self) -> (eighths: u32)
        ensures
            eighths == self.eighths_view(),
            eighths >= 1,
    {
        proof {
            use_type_invariant(&self);
        }
        self.0
    }
}

/// Whether the sheet has to be painted again at `wanted`: neither the picture
/// it has nor the one on its way is at that scale.
pub open spec fn paints_again(painted: Option<Scale>, awaited: Option<Scale>, wanted: Scale) -> bool {
    painted != Some(wanted) && awaited != Some(wanted)
}

/// Whether the Viewer asks for the sheet at `wanted`: not when the picture it
/// has is already at that scale, and not when one at that scale is on its way.
pub fn asks_for_painting(painted: Option<Scale>, awaited: Option<Scale>, wanted: Scale) -> (ask: bool)
    ensures
        ask == paints_again(painted, awaited, wanted),
{
    let up_to_date = match painted {
        Some(scale) => scale == wanted,
        None => false,
    };
    let on_its_way = match awaited {
        Some(scale) => scale == wanted,
        None => false,
    };
    !up_to_date && !on_its_way
}

/// Two scales of the same eighth are the same scale, and a sheet already
/// painted at it is not painted again.
pub proof fn the_same_eighth_reuses_the_picture(a: Scale, b: Scale, awaited: Option<Scale>)
    requires
        a.eighths_view() == b.eighths_view(),
    ensures
        a == b,
        !paints_again(Some(a), awaited, b),
{
}

/// A sheet is painted again exactly when neither the picture it has nor the
/// one on its way is at the wanted number of eighths: in particular a picture
/// at another scale, with nothing on its way, is painted again at the new one,
/// and a sheet with no picture and nothing on its way is painted.
pub proof fn a_picture_at_another_scale_is_painted_again(
    painted: Option<Scale>,
    awaited: Option<Scale>,
    wanted: Scale,
)
    ensures
        paints_again(painted, awaited, wanted) <==> (forall|s: Scale|
            painted == Some(s) ==> s.eighths_view() != wanted.eighths_view()) && (forall|s: Scale|
            awaited == Some(s) ==> s.eighths_view() != wanted.eighths_view()),
        forall|a: Scale|
            a.eighths_view() != wanted.eighths_view() ==> paints_again(Some(a), None, wanted),
        paints_again(None, None, wanted),
{
    if let Some(p) = painted {
        if p.eighths_view() == wanted.eighths_view() {
            assert(p == wanted);
        }
    }
    if let Some(a) = awaited {
        if a.eighths_view() == wanted.eighths_view() {
            assert(a == wanted);
        }
    }
    assert forall|a: Scale| a.eighths_view() != wanted.eighths_view() implies paints_again(
        Some(a),
        None,
        wanted,
    ) by {}
}

} // verus!
