use crate::{bitmap, candid, chain, grid, menu};
use vstd::prelude::*;
use vstd::std_specs::cmp::PartialEqSpecImpl;

verus! {

/// Direction along a line.
#[derive(Clone, Copy, Debug, PartialEq, Eq, Structural, Hash)]
pub enum Dir1D {
    Forward,
    Backward,
}

/// Direction in the plane.
#[derive(Clone, Copy, Debug, PartialEq, Eq, Structural, Hash)]
pub enum Dir2D {
    Up,
    Down,
    Left,
    Right,
}

pub type Nat = usize;

/// An indivisible piece of a name.
#[derive(Debug, Hash)]
pub enum Atom {
    Bool(bool),
    Usize(usize),
    String(String),
}

/// What an `Atom` stands for.
pub enum AtomView {
    Bool(bool),
    Usize(usize),
    String(Seq<char>),
}

impl View for Atom {
    type V = AtomView;

    open spec fn view(&self) -> AtomView {
        match self {
            Atom::Bool(b) => AtomView::Bool(*b),
            Atom::Usize(u) => AtomView::Usize(*u),
            Atom::String(s) => AtomView::String(s@),
        }
    }
}

#[derive(Debug, Hash)]
pub enum Name {
    Void,
    Atom(Atom),
    TaggedTuple(Box<Name>, Vec<Name>),
    Merkle(u64, Box<Name>),
}

pub enum NameView {
    Void,
    Atom(AtomView),
    TaggedTuple(Box<NameView>, Seq<NameView>),
    Merkle(u64),
}

impl Name {
    pub open spec fn model(self) -> NameView
        decreases self,
    {
        match self {
            Name::Void => NameView::Void,
            Name::Atom(a) => NameView::Atom(a@),
            Name::TaggedTuple(n, ns) => NameView::TaggedTuple(
                Box::new(n.model()),
                Seq::new(ns@.len(), |i: int| if 0 <= i < ns@.len() { ns@[i].model() } else { NameView::Void }),
            ),
            Name::Merkle(id, _) => NameView::Merkle(id),
        }
    }
}

impl View for Name {
    type V = NameView;

    open spec fn view(&self) -> NameView {
        self.model()
    }
}

impl Clone for Atom {
    fn clone(&self) -> (r: Atom)
        ensures r@ == self@,
    {
        match self {
            Atom::Bool(b) => Atom::Bool(*b),
            Atom::Usize(u) => Atom::Usize(*u),
            Atom::String(s) => Atom::String(s.clone()),
        }
    }
}

impl Clone for Name {
    fn clone(&self) -> (r: Name)
        ensures r@ == self@,
        decreases self,
    {
        match self {
            Name::Void => Name::Void,
            Name::Atom(a) => Name::Atom(a.clone()),
            Name::TaggedTuple(n, ns) => {
                let mut out: Vec<Name> = Vec::new();
                let mut i: usize = 0;
                while i < ns.len()
                    invariant
                        *self matches Name::TaggedTuple(_, v) && v == *ns,
                        i <= ns.len(),
                        out.len() == i,
                        forall|j: int| 0 <= j < i ==> out@[j]@ == ns@[j]@,
                    decreases ns.len() - i,
                {
                    out.push(ns[i].clone());
                    i += 1;
                }
                let r = Name::TaggedTuple(Box::new((**n).clone()), out);
                assert(r@ == self@) by {
                    assert(r@->TaggedTuple_1 =~= self@->TaggedTuple_1);
                }
                r
            },
            Name::Merkle(id, n) => Name::Merkle(*id, Box::new((**n).clone())),
        }
    }
}

impl Atom {
    /// Whether both atoms stand for the same thing.
    pub fn same(&self, other: &Atom) -> (r: bool)
        ensures
            r == (self@ == other@),
    {
        match (self, other) {
            (Atom::Bool(a), Atom::Bool(b)) => *a == *b,
            (Atom::Usize(a), Atom::Usize(b)) => *a == *b,
            (Atom::String(a), Atom::String(b)) => *a == *b,
            _ => false,
        }
    }
}

impl PartialEq for Atom {
    fn eq(&self, other: &Atom) -> (r: bool) {
        self.same(other)
    }
}

impl PartialEqSpecImpl for Atom {
    open spec fn obeys_eq_spec() -> bool {
        true
    }

    open spec fn eq_spec(&self, other: &Atom) -> bool {
        self@ == other@
    }
}

impl Eq for Atom {

}

impl Name {
    /// Whether both names stand for the same thing. Names that stand for a
    /// digest are the same where the digests are.
    pub fn same(&self, other: &Name) -> (r: bool)
        ensures
            r == (self@ == other@),
        decreases self,
    {
        match (self, other) {
            (Name::Void, Name::Void) => true,
            (Name::Atom(a), Name::Atom(b)) => a.same(b),
            (Name::TaggedTuple(n1, ns1), Name::TaggedTuple(n2, ns2)) => {
                if !n1.same(n2) {
                    return false;
                }
                if ns1.len() != ns2.len() {
                    assert(self@->TaggedTuple_1.len() != other@->TaggedTuple_1.len());
                    return false;
                }
                let mut i: usize = 0;
                while i < ns1.len()
                    invariant
                        *self matches Name::TaggedTuple(_, v) && v == *ns1,
                        *other matches Name::TaggedTuple(_, w) && w == *ns2,
                        ns1.len() == ns2.len(),
                        i <= ns1.len(),
                        forall|j: int| 0 <= j < i ==> ns1@[j]@ == ns2@[j]@,
                    decreases ns1.len() - i,
                {
                    if !ns1[i].same(&ns2[i]) {
                        assert(self@->TaggedTuple_1[i as int] != other@->TaggedTuple_1[i as int]);
                        return false;
                    }
                    i += 1;
                }
                assert(self@->TaggedTuple_1 =~= other@->TaggedTuple_1);
                true
            },
            (Name::Merkle(a, _), Name::Merkle(b, _)) => *a == *b,
            _ => false,
        }
    }
}

impl PartialEq for Name {
    fn eq(&self, other: &Name) -> (r: bool) {
        self.same(other)
    }
}

impl PartialEqSpecImpl for Name {
    open spec fn obeys_eq_spec() -> bool {
        true
    }

    open spec fn eq_spec(&self, other: &Name) -> bool {
        self@ == other@
    }
}

impl Eq for Name {

}

/// A digest as a number.
pub type Hash = u64;

/// Words and images.
#[derive(Debug)]
pub enum Media {
    Void,
    Atom(Atom),
    Name(Name),
    Location(Location),
    MenuTree(Box<menu::MenuTree>),
    Bitmap(Box<bitmap::Bitmap>),
    Chain(Box<chain::Chain>),
    Grid(Box<grid::Grid>),
    Store(Store),
    StoreProj(Store, Name),
    Named(Name, Box<Media>),
    Located(Location, Box<Media>),
    /// Media known by its digest.
    Merkle(Hash, Box<Media>),
    /// Quoted code is media.
    Quote(Box<Exp>),
}

/// Expressions: the forms of media, and the forms that compute media.
#[derive(Debug)]
pub enum Exp {
    Void,
    Atom(Atom),
    Name(Name),
    Location(Location),
    Bitmap(Box<bitmap::Bitmap>),
    Chain(Box<chain::Chain>),
    Grid(Box<grid::Grid>),
    Store(Store),
    StoreProj(Box<Exp>, Name),
    Named(Name, Box<Exp>),
    Located(Location, Box<Exp>),
    /// An expression known by its digest.
    Merkle(Hash, Box<Exp>),
    Quote(Box<Exp>),
    FixQuote(Name, Box<Exp>),
    MerkleFrom(Box<Exp>),
    StoreFrom(Name, Box<Exp>),
    Command(Command),
    Block(Block),
    Var(Name),
    Put(Name, Box<Exp>),
    Thunk(Name, Vec<(Name, Exp)>),
    Get(Box<Exp>),
}

/// A sequence of bindings.
#[derive(Debug)]
pub struct Block {
    pub bindings: Vec<(Name, Exp)>,
}

/// A finite map from names to media, both known by their digests.
#[derive(Debug)]
pub struct Store {
    pub name: (Hash, Name),
    pub table: Vec<((Hash, Name), (Hash, Media))>,
}

#[derive(Debug)]
pub struct StoreRecord {
    pub name: Name,
    pub content: Media,
}

/// One of the editors.
#[derive(Debug)]
pub enum Editor {
    CandidRepl(Box<candid::Repl>),
    Bitmap(Box<bitmap::Editor>),
    Menu(Box<menu::Editor>),
    Chain(Box<chain::Editor>),
    Grid(Box<grid::Editor>),
}

/// An editor at work, and what is to follow when it is done.
#[derive(Debug)]
pub struct Frame {
    pub name: Name,
    pub editor: Editor,
    pub cont: FrameCont,
}

#[derive(Debug)]
pub struct FrameCont {
    pub var: Name,
    pub commands: Vec<Command>,
}

/// A command to the engine: for the frames, or for one of the editors.
#[derive(Debug)]
pub enum Command {
    Return(Media),
    Resume(Media, Frame),
    Menu(menu::Command),
    Bitmap(bitmap::Command),
    Chain(chain::Command),
}

/// The engine: the frame at work, and the frames that wait.
#[derive(Debug)]
pub struct State {
    pub stack: Vec<Frame>,
    pub frame: Frame,
}

#[derive(Debug)]
pub struct Location {
    pub time: Name,
    pub place: Name,
}

impl Frame {
    /// A frame without a name for `editor`, with nothing to follow.
    pub fn from_editor(editor: Editor) -> (frame: Frame)
        ensures
            frame.name == Name::Void,
            frame.editor == editor,
            frame.cont.var == Name::Void,
            frame.cont.commands@.len() == 0,
    {
        Frame {
            name: Name::Void,
            editor,
            cont: FrameCont { var: Name::Void, commands: Vec::new() },
        }
    }
}

} // verus!
