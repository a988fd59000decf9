//! What crosses the wire between the server and the Viewer: the whole deck
//! going down, the goodbye, and the user's ink coming back up.
use vstd::prelude::*;

verus! {

/// An already drawn sheet, exactly as it arrives. Whoever draws it numbers it:
/// a `show` over an id that already existed gives a new sheet with the same
/// name.
#[derive(Debug)]
pub struct Drawn {
    pub number: u64,
    pub id: String,
    pub svg: String,
}

/// The whole flipchart every time: the sheets in creation order and which one
/// is at the front. The Viewer decides neither of those two things.
#[derive(Debug)]
pub struct DeckSnapshot {
    pub sheets: Vec<Drawn>,
    pub front: Option<usize>,
}

/// What the server sends the Viewer: draw the whole flipchart, or say goodbye,
/// which happens once and is the last thing to come across.
#[derive(Debug)]
pub enum Command {
    Show(DeckSnapshot),
    SessionOver,
}

/// The user's ink coming back up: the picture of one whole sheet with the
/// marks baked in, pushed by the Viewer on each completed stroke.
#[derive(Debug)]
pub struct Ink {
    pub view_id: String,
    pub png: Vec<u8>,
}

} // verus!
