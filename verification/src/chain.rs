//! Chains of named media: the data, and the kinds of command on them.

use crate::types::lang::{Dir1D, Media, Name};
use vstd::prelude::*;

verus! {

/// A linked list of nodes.
#[derive(Debug)]
pub enum Chain {
    Empty,
    Node(Node, Box<Chain>),
}

/// Media with a name.
#[derive(Debug)]
pub struct Node {
    pub name: Name,
    pub media: Box<Media>,
}

/// Why a command on a chain failed.
#[derive(Debug)]
pub enum AutoError {
    /// No node of the name.
    AbsentName(Name, Option<Media>),
    /// No media to delete.
    AbsentMedia(Option<Name>),
}

pub type Res<R> = Result<R, AutoError>;

pub type Unit = Res<()>;

/// A command on the chain alone.
#[derive(Debug)]
pub enum AutoCommand {
    InsertStart(Name, Media),
    InsertEnd(Name, Media),
    InsertBefore(Name, Name, Media),
    InsertAfter(Name, Name, Media),
    DeleteStart,
    DeleteEnd,
    DeleteAfter(Name),
    DeleteBefore(Name),
    Replace(Name, Media),
    ReplaceEnd(Media),
    ReplaceStart(Media),
}

impl AutoCommand {
    /// Whether the command puts a node in.
    pub fn is_insert(&self) -> (r: bool)
        ensures
            r == (self is InsertStart || self is InsertEnd || self is InsertAfter
                || self is InsertBefore),
    {
        match self {
            AutoCommand::InsertStart(_, _) => true,
            AutoCommand::InsertEnd(_, _) => true,
            AutoCommand::InsertAfter(_, _, _) => true,
            AutoCommand::InsertBefore(_, _, _) => true,
            _ => false,
        }
    }

    /// Whether the command takes a node out.
    pub fn is_delete(&self) -> (r: bool)
        ensures
            r == (self is DeleteStart || self is DeleteEnd || self is DeleteAfter
                || self is DeleteBefore),
    {
        match self {
            AutoCommand::DeleteStart => true,
            AutoCommand::DeleteEnd => true,
            AutoCommand::DeleteAfter(_) => true,
            AutoCommand::DeleteBefore(_) => true,
            _ => false,
        }
    }

    /// Whether the command puts other media into a node.
    pub fn is_replace(&self) -> (r: bool)
        ensures
            r == (self is Replace || self is ReplaceStart || self is ReplaceEnd),
    {
        match self {
            AutoCommand::Replace(_, _) => true,
            AutoCommand::ReplaceStart(_) => true,
            AutoCommand::ReplaceEnd(_) => true,
            _ => false,
        }
    }
}

/// A chain split around the node under the cursor.
#[derive(Debug)]
pub struct EditorState {
    pub head: Chain,
    pub cursor: Option<Node>,
    pub tail: Chain,
}

#[derive(Debug)]
pub struct Editor {
    pub history: Vec<Command>,
    pub state: Option<EditorState>,
}

#[derive(Debug)]
pub enum InitCommand {
    Empty,
    String(String),
}

#[derive(Debug)]
pub enum EditCommand {
    MoveRel(Dir1D),
    MoveAbs(usize),
    MoveBegin,
    MoveEnd,
    Insert(Dir1D, Name, Media),
    Delete(Dir1D),
    Replace(Media),
}

#[derive(Debug)]
pub enum Command {
    Init(InitCommand),
    Auto(Dir1D, AutoCommand),
    Edit(EditCommand),
}

} // verus!
