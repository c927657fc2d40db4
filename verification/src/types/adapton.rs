//! Demanded computation: the graph of references and thunks, and its log.

use crate::types::lang::{Exp, Media, Name};
use vstd::prelude::*;

verus! {

/// Names bound to media.
#[derive(Debug)]
pub struct Env {
    pub bindings: Vec<(Name, Media)>,
}

/// An expression with the environment that it is to be read in.
#[derive(Debug)]
pub struct Closure {
    pub env: Env,
    pub exp: Exp,
}

/// A place of changing data. A thunk that looks at it is recorded as an
/// incoming edge.
#[derive(Debug)]
pub struct Ref {
    pub content: Media,
    pub incoming: Vec<Edge>,
}

/// A place of changing demand. What it does to other nodes is recorded as
/// outgoing edges. An evaluation cannot fail yet, so its result is media.
#[derive(Debug)]
pub struct Thunk {
    pub closure: Closure,
    pub result: Option<Media>,
    pub outgoing: Vec<Edge>,
    pub incoming: Vec<Edge>,
}

/// One action of a thunk on another node.
#[derive(Debug)]
pub struct Edge {
    pub dependent: NodeId,
    pub dependency: NodeId,
    pub checkpoint: Action,
    /// While clear, the checkpoint is consistent.
    pub dirty_flag: bool,
}

#[derive(Debug)]
pub enum Action {
    Put(Media),
    Thunk(Closure),
    Get(Media),
}

#[derive(Debug)]
pub struct NodeId {
    pub name: Name,
}

#[derive(Debug)]
pub enum Node {
    Ref(Ref),
    Thunk(Thunk),
}

/// Who acts on the graph.
#[derive(Clone, Copy, Debug, PartialEq, Eq, Structural, Hash)]
pub enum Agent {
    Archivist,
    Editor,
}

#[derive(Debug)]
pub struct Store(pub Vec<(Name, Node)>);

#[derive(Debug)]
pub struct Stack(pub Vec<Name>);

#[derive(Debug)]
pub struct Context {
    pub agent: Agent,
    pub edges: Vec<Edge>,
    pub stack: Stack,
    pub store: Store,
    pub log_buf: LogEvents,
    pub log_stack: Vec<LogEvents>,
}

/// What happened, and what happened within it.
#[derive(Debug)]
pub enum LogEvent {
    Put(Name, Media, LogEvents),
    PutThunk(Name, Closure, LogEvents),
    Get(Name, Closure, LogEvents),
    DirtyIncomingTo(Name, LogEvents),
    CleanEdgeTo(Name, bool, LogEvents),
    CleanThunk(Name, bool, LogEvents),
    EvalThunk(Name, Media, LogEvents),
}

/// What happened, before it is known what happened within it.
#[derive(Debug)]
pub enum LogEventTag {
    Put(Name, Media),
    PutThunk(Name, Closure),
    Get(Name, Closure),
    DirtyIncomingTo(Name),
    CleanEdgeTo(Name, bool),
    CleanThunk(Name, bool),
    EvalThunk(Name, Media),
}

pub type LogEvents = Vec<LogEvent>;

} // verus!
