//! The window's title carries the session's working directory, which is what
//! the user has in mind when looking at two terminals.
use vstd::prelude::*;
use vstd::string::*;

verus! {

/// The title for a session run from the directory named `directory`.
pub open spec fn title_for(directory: Option<Seq<char>>) -> Seq<char> {
    match directory {
        Some(name) => "Flipchart \u{2014} "@ + name,
        None => "Flipchart"@,
    }
}

/// The window's title: the working directory's name after the product's, or
/// the product's alone where the directory has no name to give.
pub fn title(directory: Option<String>) -> (title: String)
    ensures
        title@ == title_for(
            match directory {
                Some(name) => Some(name@),
                None => None,
            },
        ),
{
    match directory {
        Some(name) => {
            let mut title = String::from_str("Flipchart \u{2014} ");
            title.append(name.as_str());
            title
        },
        None => String::from_str("Flipchart"),
    }
}

} // verus!
