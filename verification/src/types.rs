//! The vocabulary shared by the editors: names, events, and what is drawn.

pub mod adapton;
pub mod event;
pub mod lang;
pub mod render;
pub mod util;
