//! What the agent hands the two tools that take arguments.
use vstd::prelude::*;

verus! {

/// The arguments of `show`: a short human-readable name for the view, shown to
/// the user above the diagram, and the Mermaid source. Reusing a name replaces
/// that view.
#[derive(Debug)]
pub struct ShowParams {
    pub view_id: String,
    pub diagram: String,
}

/// The argument of `clear`: the view to remove, or none to clear the whole
/// flipchart.
#[derive(Debug)]
pub struct ClearParams {
    pub view_id: Option<String>,
}

} // verus!
