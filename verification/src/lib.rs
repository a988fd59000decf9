//! The flipchart's logic: what the Viewer decides about its window, its deck of
//! sheets, the glass and the zoom, and how the server words its replies.

mod deck;
mod first_show;
mod glass;
mod loaded;
mod machine;
mod params;
mod reply;
mod scale;
mod screen;
mod title;
mod window;
mod wire;
mod zoom;

pub use deck::{Deck, Sheet};
pub use first_show::{the_first_show, Awaiting};
pub use glass::{Glass, Tool};
pub use loaded::Loaded;
pub use machine::{
    bring_the_window_forward, keep_awake_while_the_session_lasts, stay_out_of_the_dock, Activity,
    FrontRequest,
};
pub use params::{ClearParams, ShowParams};
pub use reply::{clear_reply, marks_reply, show_reply, the_reply_to, Content, MarkedSheet, ToolReply};
pub use scale::{asks_for_painting, Scale};
pub use screen::{Face, Front, Screen};
pub use title::title;
pub use window::Window;
pub use wire::{Command, DeckSnapshot, Drawn, Ink};
pub use zoom::Zoom;
