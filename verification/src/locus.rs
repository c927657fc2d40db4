//! Where and when the engine is at work: points of time and place, and the
//! state of a session that starts here and now.

use crate::bitmap;
use vstd::prelude::*;

verus! {

/// A function on names, as the path of names that it goes along.
#[derive(Debug)]
pub struct NameFn {
    pub path: Vec<String>,
}

/// A time and a place.
#[derive(Debug)]
pub struct Point {
    pub time: String,
    pub place: String,
}

/// How time and place are named from a point.
#[derive(Debug)]
pub struct Space {
    pub time: NameFn,
    pub place: NameFn,
}

/// A point and the space around it.
#[derive(Debug)]
pub struct Locus {
    pub point: Point,
    pub space: Space,
}

/// A command to a session.
#[derive(Debug)]
pub enum Command {
    Version,
    Completions(String),
    MakeTime(String),
    MakePlace(String),
    GotoPlace(String),
    ReadLine,
    SdlTest,
    Bitmap(bitmap::Command),
}

/// A session: where it is, what it was told, and its bitmap editor.
#[derive(Debug)]
pub struct State {
    pub locus: Locus,
    pub command_history: Vec<Command>,
    pub bitmap_editor: bitmap::Editor,
}

/// The session that starts here and now: names are taken as they are,
/// nothing was told yet, and the bitmap editor is not set up.
pub fn init() -> (state: State)
    ensures
        state.locus.point.time@ == "now"@,
        state.locus.point.place@ == "here"@,
        state.locus.space.time.path@.len() == 0,
        state.locus.space.place.path@.len() == 0,
        state.command_history@.len() == 0,
        state.bitmap_editor@ == (bitmap::EditorView { history: Seq::empty(), state: None }),
{
    let locus_init = Locus {
        point: Point { time: "now".to_owned(), place: "here".to_owned() },
        space: Space { time: NameFn { path: Vec::new() }, place: NameFn { path: Vec::new() } },
    };
    let state = State {
        locus: locus_init,
        command_history: Vec::new(),
        bitmap_editor: bitmap::Editor { state: None, history: Vec::new() },
    };
    assert(state.bitmap_editor@.history =~= Seq::empty());
    state
}

} // verus!
