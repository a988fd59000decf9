//! The user's zoom: the choice over the fit, and it belongs to the sheet.
use vstd::prelude::*;

verus! {

/// The zoom a sheet is at: the user's choice where they made one, the fit where
/// they have not.
pub open spec fn zoom_at<F>(chosen: Option<F>, fit: F) -> F {
    match chosen {
        Some(zoom) => zoom,
        None => fit,
    }
}

/// The user's zoom of a sheet: an override of the fit, which unlike the fit may
/// enlarge, because an explicit choice lies about nothing. A sheet is born
/// fitted: a scroll or a pinch turns it, a double-click hands it back, and a
/// replaced View starts over.
#[derive(Debug, Clone, Copy)]
pub struct Zoom<F> {
    chosen: Option<F>,
}

impl<F> View for Zoom<F> {
    type V = Option<F>;

    /// The user's choice, if they made one.
    closed spec fn view(&self) -> Option<F> {
        self.chosen
    }
}

impl<F> Default for Zoom<F> {
    /// A sheet is born at the fit.
    fn default() -> (zoom: Self)
        ensures
            zoom@ is None,
    {
        Zoom { chosen: None }
    }
}

impl<F: Copy> Zoom<F> {
    /// The zoom the sheet is at: the user's choice where they made one, the fit
    /// where they have not.
    pub fn of(&self, fit: F) -> (zoom: F)
        ensures
            zoom == zoom_at(self@, fit),
    {
        match self.chosen {
            Some(zoom) => zoom,
            None => fit,
        }
    }

    /// The user turned the sheet to `zoom`, by scroll or pinch.
    pub fn chose(&mut self, zoom: F)
        ensures
            final(self)@ == Some(zoom),
    {
        self.chosen = Some(zoom);
    }

    /// Double-click: back to the fit, whose zoom was never the user's to keep.
    pub fn reset(&mut self)
        ensures
            final(self)@ is None,
    {
        self.chosen = None;
    }
}

/// A sheet the user has not zoomed, or handed back to the fit, is at the fit
/// whatever the fit is.
pub proof fn without_a_choice_the_fit_rules<F>(fit: F)
    ensures
        zoom_at(None, fit) == fit,
{
}

/// The choice is absolute and does not follow the room: once made, the zoom is
/// the same whatever the fit comes to be.
pub proof fn the_choice_does_not_follow_the_room<F>(chosen: F, fit: F, other_fit: F)
    ensures
        zoom_at(Some(chosen), fit) == zoom_at(Some(chosen), other_fit),
        zoom_at(Some(chosen), fit) == chosen,
{
}

} // verus!
