//! What comes in: the events that the editors respond to.

use vstd::prelude::*;

verus! {

/// An event from outside.
#[derive(Debug, Hash)]
pub enum Event {
    Quit,
    KeyDown(KeyEventInfo),
    KeyUp(KeyEventInfo),
}

/// A key and the modifier keys held with it.
#[derive(Debug, Hash)]
pub struct KeyEventInfo {
    pub key: String,
    pub alt: bool,
    pub ctrl: bool,
    pub meta: bool,
    pub shift: bool,
}

impl Clone for KeyEventInfo {
    fn clone(&self) -> (r: KeyEventInfo)
        ensures
            r.key@ == self.key@,
            r.alt == self.alt,
            r.ctrl == self.ctrl,
            r.meta == self.meta,
            r.shift == self.shift,
    {
        KeyEventInfo {
            key: self.key.clone(),
            alt: self.alt,
            ctrl: self.ctrl,
            meta: self.meta,
            shift: self.shift,
        }
    }
}

impl Clone for Event {
    fn clone(&self) -> (r: Event)
        ensures
            r.key() == self.key(),
            r is Quit <==> self is Quit,
            r is KeyUp <==> self is KeyUp,
    {
        match self {
            Event::Quit => Event::Quit,
            Event::KeyDown(k) => Event::KeyDown(k.clone()),
            Event::KeyUp(k) => Event::KeyUp(k.clone()),
        }
    }
}

impl Event {
    /// The key that went down, if the event is a key going down.
    pub open spec fn key(self) -> Option<Seq<char>> {
        match self {
            Event::KeyDown(k) => Some(k.key@),
            _ => None,
        }
    }
}

} // verus!
