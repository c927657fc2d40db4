//! The mathematical model of the structural editor: schemas, partial trees,
//! one-hole contexts and the zipper that moves through them.
//!
//! Everything here is specification. The executable editor in
//! `menu::semantics` is proved to compute exactly these functions.

use crate::menu::proofs::lemma_walk_gets_closer;
use crate::types::lang::{Dir1D, NameView};
use vstd::prelude::*;

verus! {


/// The kinds of primitive value.
#[derive(Clone, Copy, Debug, PartialEq, Eq, Structural, Hash)]
pub enum PrimType {
    Null,
    Unit,
    Nat,
    Int,
    Text,
    Bool,
}

/// The declared shape of a value.
pub enum Schema {
    Prim(PrimType),
    Variant(Seq<(NameView, Schema)>),
    Product(Seq<(NameView, Schema)>),
    Option(Box<Schema>),
    Vec(Box<Schema>),
    Tup(Seq<Schema>),
    Var(NameView),
    Func(Seq<Schema>, Seq<Schema>),
}

/// A labelled occupant of a record or a union: label, subtree, schema owed.
pub type Arm = (NameView, Tree, Schema);

/// A positional occupant of a tuple or a sequence: subtree, schema owed.
pub type Slot = (Tree, Schema);

/// A value under construction.
pub enum Tree {
    Product(Seq<Arm>),
    Variant(Box<Choice>),
    Option(bool, Box<Tree>, Schema),
    Vec(Seq<Tree>, Schema),
    Tup(Seq<Slot>),
    Blank(Schema),
    Nat(usize),
    Int(isize),
    Text(Seq<char>),
    Bool(bool),
    Unit,
    Null,
}

/// The arms of a union, split around the one that is chosen, if any.
pub struct Choice {
    pub before: Seq<Arm>,
    pub choice: Option<Arm>,
    pub after: Seq<Arm>,
}

/// Everything but the focus: a chain of frames from the focus out to the root.
#[allow(inconsistent_fields)]
pub enum Context {
    Root(Schema),
    Tup { before: Seq<Slot>, outer: Box<Context>, after: Seq<Slot> },
    Product { before: Seq<Arm>, outer: Box<Context>, label: NameView, after: Seq<Arm> },
    Variant { before: Seq<Arm>, outer: Box<Context>, label: NameView, after: Seq<Arm> },
    Option { present: bool, outer: Box<Context> },
    Vec { before: Seq<Slot>, outer: Box<Context>, after: Seq<Slot> },
}

/// A cursor: the focused subtree, its schema, and the context around it.
pub struct Zipper {
    pub root: Schema,
    pub ctx: Context,
    pub tree: Tree,
    pub typ: Schema,
}

/// Why an edit did not happen.
#[derive(Clone, Copy, Debug, PartialEq, Eq, Structural, Hash)]
pub enum EditError {
    /// Ascend at the root.
    AtRoot,
    /// Descend into a blank, or into a structure with no occupant.
    NoSubtree,
    /// Descend into, or accept, a union with no arm chosen.
    NoChosenArm,
    /// The command needs a focus of another shape.
    WrongTag,
    /// The walk found no further node.
    Exhausted,
    /// An edit before any initialisation.
    NotInitialized,
    /// The command has no meaning on this focus.
    NotImplemented,
    /// A numeric leaf already holds the largest value of its machine type.
    Overflow,
}

/// A command that moves the cursor or changes the focus.
#[derive(Clone, Copy, Debug, PartialEq, Eq, Structural, Hash)]
pub enum EditCommand {
    Commit,
    Descend,
    Ascend,
    PrevSibling,
    NextSibling,
    GotoRoot,
    AutoFill,
    Clear,
    NextTree,
    PrevTree,
    NextBlank,
    PrevBlank,
    NextVariant,
    PrevVariant,
    AcceptVariant,
    VecInsertBlank,
    VecInsertAuto,
}

/// What a `Halt` stands for.
pub enum HaltView {
    Commit(Tree),
    Message(EditError),
}

/// What a `Command` stands for.
pub enum CommandView {
    Init(Tree, Schema),
    CheckMenuType,
    CheckComplete,
    Replace(Tree),
    Edit(EditCommand),
}

/// What an `Editor` stands for.
pub struct EditorView {
    pub state: Option<Zipper>,
    pub history: Seq<CommandView>,
}

impl EditError {
    /// The failure in words.
    pub open spec fn text(self) -> Seq<char> {
        match self {
            EditError::AtRoot => "cannot ascend: already at root"@,
            EditError::NoSubtree => "no subtrees"@,
            EditError::NoChosenArm => "no choice subtree"@,
            EditError::WrongTag => "expected a tree of another kind"@,
            EditError::Exhausted => "no further tree"@,
            EditError::NotInitialized => "Invalid editor state"@,
            EditError::NotImplemented => "not implemented"@,
            EditError::Overflow => "number too large"@,
        }
    }

    /// The failure in words.
    pub fn message(&self) -> (s: String)
        ensures
            s@ == self.text(),
    {
        match self {
            EditError::AtRoot => "cannot ascend: already at root".to_owned(),
            EditError::NoSubtree => "no subtrees".to_owned(),
            EditError::NoChosenArm => "no choice subtree".to_owned(),
            EditError::WrongTag => "expected a tree of another kind".to_owned(),
            EditError::Exhausted => "no further tree".to_owned(),
            EditError::NotInitialized => "Invalid editor state".to_owned(),
            EditError::NotImplemented => "not implemented".to_owned(),
            EditError::Overflow => "number too large".to_owned(),
        }
    }
}

// ---------------------------------------------------------------------------
// Shapes and conformance

/// The label and schema of each arm, in order.
pub open spec fn arm_schemas(arms: Seq<Arm>) -> Seq<(NameView, Schema)> {
    Seq::new(arms.len(), |i: int| (arms[i].0, arms[i].2))
}

/// The schema of each slot, in order.
pub open spec fn slot_schemas(slots: Seq<Slot>) -> Seq<Schema> {
    Seq::new(slots.len(), |i: int| slots[i].1)
}

/// The subtree of each slot, in order.
pub open spec fn slot_trees(slots: Seq<Slot>) -> Seq<Tree> {
    Seq::new(slots.len(), |i: int| slots[i].0)
}

/// Each tree paired with the one schema `s`.
pub open spec fn slots_of(trees: Seq<Tree>, s: Schema) -> Seq<Slot> {
    Seq::new(trees.len(), |i: int| (trees[i], s))
}

/// Zero or one arm as a sequence.
pub open spec fn opt_arm(a: Option<Arm>) -> Seq<Arm> {
    match a {
        Some(x) => seq![x],
        None => Seq::empty(),
    }
}

impl Choice {
    /// All the arms in the order of the governing schema.
    pub open spec fn arms(self) -> Seq<Arm> {
        self.before + opt_arm(self.choice) + self.after
    }
}

/// The zero value of a primitive kind.
pub open spec fn zero_of(k: PrimType) -> Tree {
    match k {
        PrimType::Unit => Tree::Unit,
        PrimType::Null => Tree::Null,
        PrimType::Nat => Tree::Nat(0),
        PrimType::Int => Tree::Int(0),
        PrimType::Text => Tree::Text(Seq::empty()),
        PrimType::Bool => Tree::Bool(false),
    }
}

/// The schema that a tree's own top node declares.
pub open spec fn shape(t: Tree) -> Schema {
    match t {
        Tree::Product(arms) => Schema::Product(arm_schemas(arms)),
        Tree::Variant(c) => Schema::Variant(arm_schemas(c.arms())),
        Tree::Option(_, _, s) => Schema::Option(Box::new(s)),
        Tree::Vec(_, s) => Schema::Vec(Box::new(s)),
        Tree::Tup(slots) => Schema::Tup(slot_schemas(slots)),
        Tree::Blank(s) => s,
        Tree::Nat(_) => Schema::Prim(PrimType::Nat),
        Tree::Int(_) => Schema::Prim(PrimType::Int),
        Tree::Text(_) => Schema::Prim(PrimType::Text),
        Tree::Bool(_) => Schema::Prim(PrimType::Bool),
        Tree::Unit => Schema::Prim(PrimType::Unit),
        Tree::Null => Schema::Prim(PrimType::Null),
    }
}

/// `t` conforms to `s`: its top node declares `s`, and every subtree conforms
/// to the schema stored beside it.
pub open spec fn conforms(t: Tree, s: Schema) -> bool
    decreases t,
{
    &&& shape(t) == s
    &&& match t {
        Tree::Product(arms) => forall|i: int|
            0 <= i < arms.len() ==> conforms((#[trigger] arms[i]).1, arms[i].2),
        Tree::Variant(c) => {
            &&& forall|i: int|
                0 <= i < c.before.len() ==> conforms((#[trigger] c.before[i]).1, c.before[i].2)
            &&& match c.choice {
                Some(a) => conforms(a.1, a.2),
                None => true,
            }
            &&& forall|i: int|
                0 <= i < c.after.len() ==> conforms((#[trigger] c.after[i]).1, c.after[i].2)
        },
        Tree::Option(_, inner, s1) => conforms(*inner, s1),
        Tree::Vec(ts, s1) => forall|i: int| 0 <= i < ts.len() ==> conforms(#[trigger] ts[i], s1),
        Tree::Tup(slots) => forall|i: int|
            0 <= i < slots.len() ==> conforms((#[trigger] slots[i]).0, slots[i].1),
        _ => true,
    }
}

/// Every arm's subtree conforms to the schema stored with it.
pub open spec fn arms_conform(arms: Seq<Arm>) -> bool {
    forall|i: int| 0 <= i < arms.len() ==> conforms((#[trigger] arms[i]).1, arms[i].2)
}

/// Every slot's subtree conforms to the schema stored with it.
pub open spec fn slots_conform(slots: Seq<Slot>) -> bool {
    forall|i: int| 0 <= i < slots.len() ==> conforms((#[trigger] slots[i]).0, slots[i].1)
}

// ---------------------------------------------------------------------------
// Contexts that rebuild a well-typed root

/// `ctx` is a sound surrounding for a hole of schema `hole`: every stored
/// sibling conforms to the schema beside it, and plugging the hole frame by
/// frame ends in a tree of schema `root`.
pub open spec fn ctx_ok(ctx: Context, hole: Schema, root: Schema) -> bool
    decreases ctx,
{
    match ctx {
        Context::Root(s) => s == root && hole == root,
        Context::Tup { before, outer, after } => {
            &&& slots_conform(before)
            &&& slots_conform(after)
            &&& ctx_ok(*outer, Schema::Tup(slot_schemas(before.push((Tree::Null, hole)) + after)), root)
        },
        Context::Product { before, outer, label, after } => {
            &&& arms_conform(before)
            &&& arms_conform(after)
            &&& ctx_ok(
                *outer,
                Schema::Product(arm_schemas(before.push((label, Tree::Null, hole)) + after)),
                root,
            )
        },
        Context::Variant { before, outer, label, after } => {
            &&& arms_conform(before)
            &&& arms_conform(after)
            &&& ctx_ok(
                *outer,
                Schema::Variant(arm_schemas(before.push((label, Tree::Null, hole)) + after)),
                root,
            )
        },
        Context::Option { present, outer } => ctx_ok(*outer, Schema::Option(Box::new(hole)), root),
        Context::Vec { before, outer, after } => {
            &&& slots_conform(before)
            &&& slots_conform(after)
            &&& forall|i: int| 0 <= i < before.len() ==> (#[trigger] before[i]).1 == hole
            &&& forall|i: int| 0 <= i < after.len() ==> (#[trigger] after[i]).1 == hole
            &&& ctx_ok(*outer, Schema::Vec(Box::new(hole)), root)
        },
    }
}

/// The number of frames between the focus and the root.
pub open spec fn depth(ctx: Context) -> nat
    decreases ctx,
{
    match ctx {
        Context::Root(_) => 0,
        Context::Tup { outer, .. } => 1 + depth(*outer),
        Context::Product { outer, .. } => 1 + depth(*outer),
        Context::Variant { outer, .. } => 1 + depth(*outer),
        Context::Option { outer, .. } => 1 + depth(*outer),
        Context::Vec { outer, .. } => 1 + depth(*outer),
    }
}

// ---------------------------------------------------------------------------
// Union-arm cycling

impl Choice {
    /// The choice one step further in direction `dir`.
    ///
    /// Forward with arms left in `after`: the head of `after` becomes the
    /// chosen arm and the arm chosen before, if any, joins the tail of
    /// `before`. Forward with `after` empty: every arm goes to `after`, in
    /// order, and none is chosen. Backward is the mirror image.
    pub open spec fn cycle(self, dir: Dir1D) -> Choice {
        match dir {
            Dir1D::Forward => if self.after.len() > 0 {
                Choice {
                    before: self.before + opt_arm(self.choice),
                    choice: Some(self.after[0]),
                    after: self.after.drop_first(),
                }
            } else {
                Choice {
                    before: Seq::empty(),
                    choice: None,
                    after: self.before + opt_arm(self.choice),
                }
            },
            Dir1D::Backward => if self.before.len() > 0 {
                Choice {
                    before: self.before.drop_last(),
                    choice: Some(self.before.last()),
                    after: opt_arm(self.choice) + self.after,
                }
            } else {
                Choice {
                    before: opt_arm(self.choice) + self.after,
                    choice: None,
                    after: Seq::empty(),
                }
            },
        }
    }

    /// `self` after `n` steps forward.
    pub open spec fn cycle_forward_n(self, n: nat) -> Choice
        decreases n,
    {
        if n == 0 {
            self
        } else {
            self.cycle(Dir1D::Forward).cycle_forward_n((n - 1) as nat)
        }
    }

    /// `self` after `n` steps backward.
    pub open spec fn cycle_backward_n(self, n: nat) -> Choice
        decreases n,
    {
        if n == 0 {
            self
        } else {
            self.cycle(Dir1D::Backward).cycle_backward_n((n - 1) as nat)
        }
    }
}

// ---------------------------------------------------------------------------
// Moves of the cursor

impl Zipper {
    /// The cursor at the root of `tree`.
    pub open spec fn start(tree: Tree, schema: Schema) -> Zipper {
        Zipper { root: schema, ctx: Context::Root(schema), tree, typ: schema }
    }

    /// Invariant of the editor: the focus conforms to its schema, and the
    /// context rebuilds a tree of the root schema around it.
    pub open spec fn wf(self) -> bool {
        &&& conforms(self.tree, self.typ)
        &&& ctx_ok(self.ctx, self.typ, self.root)
    }

    /// The same cursor with another focus.
    pub open spec fn with_tree(self, tree: Tree) -> Zipper {
        Zipper { tree, ..self }
    }

    /// One level toward the root: the frame around the focus is closed over
    /// it, and the rebuilt node becomes the focus.
    pub open spec fn ascend(self) -> Result<Zipper, EditError> {
        match self.ctx {
            Context::Root(_) => Err(EditError::AtRoot),
            Context::Tup { before, outer, after } => {
                let slots = before.push((self.tree, self.typ)) + after;
                Ok(
                    Zipper {
                        root: self.root,
                        ctx: *outer,
                        tree: Tree::Tup(slots),
                        typ: Schema::Tup(slot_schemas(slots)),
                    },
                )
            },
            Context::Product { before, outer, label, after } => {
                let arms = before.push((label, self.tree, self.typ)) + after;
                Ok(
                    Zipper {
                        root: self.root,
                        ctx: *outer,
                        tree: Tree::Product(arms),
                        typ: Schema::Product(arm_schemas(arms)),
                    },
                )
            },
            Context::Variant { before, outer, label, after } => {
                let c = Choice { before, choice: Some((label, self.tree, self.typ)), after };
                Ok(
                    Zipper {
                        root: self.root,
                        ctx: *outer,
                        tree: Tree::Variant(Box::new(c)),
                        typ: Schema::Variant(arm_schemas(c.arms())),
                    },
                )
            },
            Context::Option { present, outer } => Ok(
                Zipper {
                    root: self.root,
                    ctx: *outer,
                    tree: Tree::Option(present, Box::new(self.tree), self.typ),
                    typ: Schema::Option(Box::new(self.typ)),
                },
            ),
            Context::Vec { before, outer, after } => Ok(
                Zipper {
                    root: self.root,
                    ctx: *outer,
                    tree: Tree::Vec(slot_trees(before).push(self.tree) + slot_trees(after), self.typ),
                    typ: Schema::Vec(Box::new(self.typ)),
                },
            ),
        }
    }

    /// One level into the focus. Of a record, a tuple or a sequence the first
    /// occupant is entered going forward and the last going backward; of an
    /// option its payload; of a union its chosen arm.
    pub open spec fn enter(self, dir: Dir1D) -> Result<Zipper, EditError> {
        match self.tree {
            Tree::Blank(_) => Err(EditError::NoSubtree),
            Tree::Tup(slots) => if slots.len() == 0 {
                Err(EditError::NoSubtree)
            } else {
                let (here, before, after) = match dir {
                    Dir1D::Forward => (slots[0], Seq::<Slot>::empty(), slots.drop_first()),
                    Dir1D::Backward => (slots.last(), slots.drop_last(), Seq::<Slot>::empty()),
                };
                Ok(
                    Zipper {
                        root: self.root,
                        ctx: Context::Tup { before, outer: Box::new(self.ctx), after },
                        tree: here.0,
                        typ: here.1,
                    },
                )
            },
            Tree::Product(arms) => if arms.len() == 0 {
                Err(EditError::NoSubtree)
            } else {
                let (here, before, after) = match dir {
                    Dir1D::Forward => (arms[0], Seq::<Arm>::empty(), arms.drop_first()),
                    Dir1D::Backward => (arms.last(), arms.drop_last(), Seq::<Arm>::empty()),
                };
                Ok(
                    Zipper {
                        root: self.root,
                        ctx: Context::Product {
                            before,
                            outer: Box::new(self.ctx),
                            label: here.0,
                            after,
                        },
                        tree: here.1,
                        typ: here.2,
                    },
                )
            },
            Tree::Vec(trees, s) => if trees.len() == 0 {
                Err(EditError::NoSubtree)
            } else {
                let slots = slots_of(trees, s);
                let (here, before, after) = match dir {
                    Dir1D::Forward => (slots[0], Seq::<Slot>::empty(), slots.drop_first()),
                    Dir1D::Backward => (slots.last(), slots.drop_last(), Seq::<Slot>::empty()),
                };
                Ok(
                    Zipper {
                        root: self.root,
                        ctx: Context::Vec { before, outer: Box::new(self.ctx), after },
                        tree: here.0,
                        typ: here.1,
                    },
                )
            },
            Tree::Option(present, inner, s) => Ok(
                Zipper {
                    root: self.root,
                    ctx: Context::Option { present, outer: Box::new(self.ctx) },
                    tree: *inner,
                    typ: s,
                },
            ),
            Tree::Variant(c) => match c.choice {
                Some(a) => Ok(
                    Zipper {
                        root: self.root,
                        ctx: Context::Variant {
                            before: c.before,
                            outer: Box::new(self.ctx),
                            label: a.0,
                            after: c.after,
                        },
                        tree: a.1,
                        typ: a.2,
                    },
                ),
                None => Err(EditError::NoChosenArm),
            },
            _ => Err(EditError::NotImplemented),
        }
    }

    /// The `Descend` command: a numeric leaf is increased by one and stays in
    /// focus; any other focus is entered.
    pub open spec fn descend(self, dir: Dir1D) -> Result<Zipper, EditError> {
        match self.tree {
            Tree::Nat(n) => if n < usize::MAX {
                Ok(self.with_tree(Tree::Nat((n + 1) as usize)))
            } else {
                Err(EditError::Overflow)
            },
            Tree::Int(i) => if i < isize::MAX {
                Ok(self.with_tree(Tree::Int((i + 1) as isize)))
            } else {
                Err(EditError::Overflow)
            },
            _ => self.enter(dir),
        }
    }

    /// The frame around the focus holds a further occupant in direction `dir`.
    pub open spec fn has_sibling(self, dir: Dir1D) -> bool {
        match self.ctx {
            Context::Tup { before, after, .. } => dir_side(dir, before, after).len() > 0,
            Context::Vec { before, after, .. } => dir_side(dir, before, after).len() > 0,
            Context::Product { before, after, .. } => dir_side(dir, before, after).len() > 0,
            _ => false,
        }
    }

    /// Within the frame, the focus moved to its neighbour in direction `dir`.
    /// Meant for a cursor with `has_sibling(dir)`; elsewhere the cursor itself.
    pub open spec fn shift(self, dir: Dir1D) -> Zipper {
        match self.ctx {
            Context::Tup { before, outer, after } => {
                let (here, b, a) = shift_slots(dir, before, (self.tree, self.typ), after);
                Zipper {
                    root: self.root,
                    ctx: Context::Tup { before: b, outer, after: a },
                    tree: here.0,
                    typ: here.1,
                }
            },
            Context::Vec { before, outer, after } => {
                let (here, b, a) = shift_slots(dir, before, (self.tree, self.typ), after);
                Zipper {
                    root: self.root,
                    ctx: Context::Vec { before: b, outer, after: a },
                    tree: here.0,
                    typ: here.1,
                }
            },
            Context::Product { before, outer, label, after } => {
                let (here, b, a) = shift_arms(dir, before, (label, self.tree, self.typ), after);
                Zipper {
                    root: self.root,
                    ctx: Context::Product { before: b, outer, label: here.0, after: a },
                    tree: here.1,
                    typ: here.2,
                }
            },
            _ => self,
        }
    }

    /// The `NextSibling` (forward) and `PrevSibling` (backward) commands.
    ///
    /// In a record, tuple or sequence frame the focus moves to its neighbour;
    /// past the last one it comes round to the other end. In a union frame
    /// the move is made one level up. At the root, and in an option frame,
    /// the cursor stays where it is.
    pub open spec fn sibling(self, dir: Dir1D) -> Result<Zipper, EditError>
        decreases depth(self.ctx),
    {
        match self.ctx {
            Context::Root(_) => Ok(self),
            Context::Option { .. } => Ok(self),
            Context::Variant { .. } => self.ascend().unwrap().sibling(dir),
            _ => if self.has_sibling(dir) {
                Ok(self.shift(dir))
            } else {
                self.ascend().unwrap().enter(dir)
            },
        }
    }

    /// From a focus that cannot be entered: the nearest node further on in
    /// direction `dir`, found by moving to a neighbour or, where the frame has
    /// none left, by ascending and looking again. At the root nothing is left.
    pub open spec fn climb(self, dir: Dir1D) -> Result<Zipper, EditError>
        decreases depth(self.ctx),
    {
        match self.ctx {
            Context::Root(_) => Err(EditError::Exhausted),
            _ => if self.has_sibling(dir) {
                Ok(self.shift(dir))
            } else {
                self.ascend().unwrap().climb(dir)
            },
        }
    }

    /// The `NextTree` (forward) and `PrevTree` (backward) commands: one step
    /// of the pre-order walk, or of its mirror image.
    pub open spec fn walk(self, dir: Dir1D) -> Result<Zipper, EditError> {
        match self.enter(dir) {
            Ok(z) => Ok(z),
            Err(_) => self.climb(dir),
        }
    }

    /// The cursor after ascending all the way.
    pub open spec fn top(self) -> Zipper
        decreases depth(self.ctx),
    {
        match self.ctx {
            Context::Root(_) => self,
            _ => self.ascend().unwrap().top(),
        }
    }

    /// The `NextVariant` and `PrevVariant` commands.
    pub open spec fn cycle_variant(self, dir: Dir1D) -> Result<Zipper, EditError> {
        match self.tree {
            Tree::Variant(c) => Ok(self.with_tree(Tree::Variant(Box::new(c.cycle(dir))))),
            _ => Err(EditError::WrongTag),
        }
    }

    /// The `AcceptVariant` command.
    pub open spec fn accept_variant(self) -> Result<Zipper, EditError> {
        match self.tree {
            Tree::Variant(c) => if c.choice is Some {
                self.ascend()
            } else {
                Err(EditError::NoChosenArm)
            },
            _ => Err(EditError::WrongTag),
        }
    }
}

/// Some frame of `ctx` holds a further occupant in direction `dir`.
pub open spec fn climbable(ctx: Context, dir: Dir1D) -> bool
    decreases ctx,
{
    match ctx {
        Context::Root(_) => false,
        Context::Tup { before, outer, after } => dir_side(dir, before, after).len() > 0
            || climbable(*outer, dir),
        Context::Vec { before, outer, after } => dir_side(dir, before, after).len() > 0
            || climbable(*outer, dir),
        Context::Product { before, outer, after, .. } => dir_side(dir, before, after).len() > 0
            || climbable(*outer, dir),
        Context::Variant { outer, .. } => climbable(*outer, dir),
        Context::Option { outer, .. } => climbable(*outer, dir),
    }
}

// ---------------------------------------------------------------------------
// Filling and merging

/// The canonical tree of schema `s`, expanded `depth` levels.
///
/// A primitive gives its zero value at any depth. Any other schema gives a
/// blank at depth 0; below that a record or tuple fills every occupant one
/// level less deep, a union fills every arm likewise and chooses none, an
/// option is absent with its payload filled, a sequence is empty at depth 1
/// and holds one filled element at greater depth, and a name or a procedure
/// stays blank.
pub open spec fn fill(s: Schema, depth: nat) -> Tree
    decreases depth, 0nat,
{
    match s {
        Schema::Prim(k) => zero_of(k),
        _ => if depth == 0 {
            Tree::Blank(s)
        } else {
            let d = (depth - 1) as nat;
            match s {
                Schema::Prim(k) => zero_of(k),
                Schema::Var(_) => Tree::Blank(s),
                Schema::Func(_, _) => Tree::Blank(s),
                Schema::Variant(fs) => Tree::Variant(
                    Box::new(Choice { before: Seq::empty(), choice: None, after: fill_arms(fs, d) }),
                ),
                Schema::Product(fs) => Tree::Product(fill_arms(fs, d)),
                Schema::Vec(t) => if depth == 1 {
                    Tree::Vec(Seq::empty(), *t)
                } else {
                    Tree::Vec(seq![fill(*t, d)], *t)
                },
                Schema::Option(t) => Tree::Option(false, Box::new(fill(*t, d)), *t),
                Schema::Tup(ts) => Tree::Tup(fill_slots(ts, d)),
            }
        },
    }
}

/// One arm for each labelled schema, filled `depth` levels deep.
pub open spec fn fill_arms(fs: Seq<(NameView, Schema)>, depth: nat) -> Seq<Arm>
    decreases depth, 1nat,
{
    Seq::new(fs.len(), |i: int| (fs[i].0, fill(fs[i].1, depth), fs[i].1))
}

/// One slot for each schema, filled `depth` levels deep.
pub open spec fn fill_slots(ts: Seq<Schema>, depth: nat) -> Seq<Slot>
    decreases depth, 1nat,
{
    Seq::new(ts.len(), |i: int| (fill(ts[i], depth), ts[i]))
}

/// `a` and `b` can be merged: wherever a record meets a record, both list
/// the same labels and schemas.
pub open spec fn mergeable(a: Tree, b: Tree) -> bool
    decreases a,
{
    match (a, b) {
        (Tree::Product(x), Tree::Product(y)) => {
            &&& arm_schemas(x) == arm_schemas(y)
            &&& forall|i: int|
                0 <= i < x.len() && i < y.len() ==> mergeable((#[trigger] x[i]).1, y[i].1)
        },
        _ => true,
    }
}

/// The two trees combined. A blank gives way to the other tree; two records
/// are merged field by field; in every other case the second tree is taken.
pub open spec fn merge(a: Tree, b: Tree) -> Tree
    decreases a,
{
    match (a, b) {
        (Tree::Blank(_), _) => b,
        (_, Tree::Blank(_)) => a,
        (Tree::Product(x), Tree::Product(y)) => Tree::Product(merge_arms(x, y)),
        _ => b,
    }
}

/// The arms of `x`, each merged with the arm of `y` in the same place.
pub open spec fn merge_arms(x: Seq<Arm>, y: Seq<Arm>) -> Seq<Arm>
    decreases x,
{
    Seq::new(
        x.len(),
        |i: int| if 0 <= i < x.len() { (x[i].0, merge(x[i].1, y[i].1), x[i].2) } else { arbitrary() },
    )
}

impl Zipper {
    /// The `AutoFill` command: the focus merged with the canonical tree of
    /// its schema, one level deep.
    pub open spec fn auto_fill(self) -> Zipper {
        self.with_tree(merge(self.tree, fill(self.typ, 1)))
    }

    /// The `Clear` command: the focus replaced by a blank of its schema.
    pub open spec fn clear(self) -> Zipper {
        self.with_tree(Tree::Blank(self.typ))
    }
}

// ---------------------------------------------------------------------------
// How much of the walk is left

/// The sum of the numbers in `s`.
pub open spec fn total(s: Seq<nat>) -> nat
    decreases s.len(),
{
    if s.len() == 0 {
        0
    } else {
        total(s.drop_last()) + s.last()
    }
}

/// The number of nodes that the walk visits in `t`, `t` itself included.
/// Of a union only the chosen arm is visited.
pub open spec fn span(t: Tree) -> nat
    decreases t,
{
    1 + match t {
        Tree::Product(arms) => total(arm_spans(arms)),
        Tree::Variant(c) => match c.choice {
            Some(a) => span(a.1),
            None => 0,
        },
        Tree::Option(_, inner, _) => span(*inner),
        Tree::Vec(ts, _) => total(tree_spans(ts)),
        Tree::Tup(slots) => total(slot_spans(slots)),
        _ => 0,
    }
}

/// The span of each arm's subtree.
pub open spec fn arm_spans(arms: Seq<Arm>) -> Seq<nat>
    decreases arms,
{
    Seq::new(arms.len(), |i: int| if 0 <= i < arms.len() { span(arms[i].1) } else { 0 })
}

/// The span of each slot's subtree.
pub open spec fn slot_spans(slots: Seq<Slot>) -> Seq<nat>
    decreases slots,
{
    Seq::new(slots.len(), |i: int| if 0 <= i < slots.len() { span(slots[i].0) } else { 0 })
}

/// The span of each tree.
pub open spec fn tree_spans(ts: Seq<Tree>) -> Seq<nat>
    decreases ts,
{
    Seq::new(ts.len(), |i: int| if 0 <= i < ts.len() { span(ts[i]) } else { 0 })
}

/// The number of nodes that the walk in direction `dir` still visits in the
/// siblings that `ctx` stores, frame by frame out to the root.
pub open spec fn ctx_remaining(ctx: Context, dir: Dir1D) -> nat
    decreases ctx,
{
    match ctx {
        Context::Root(_) => 0,
        Context::Tup { before, outer, after } => total(slot_spans(dir_side(dir, before, after)))
            + ctx_remaining(*outer, dir),
        Context::Vec { before, outer, after } => total(slot_spans(dir_side(dir, before, after)))
            + ctx_remaining(*outer, dir),
        Context::Product { before, outer, after, .. } => total(
            arm_spans(dir_side(dir, before, after)),
        ) + ctx_remaining(*outer, dir),
        Context::Variant { outer, .. } => ctx_remaining(*outer, dir),
        Context::Option { outer, .. } => ctx_remaining(*outer, dir),
    }
}

impl Zipper {
    /// The number of nodes that the walk in direction `dir` visits after the
    /// focus.
    pub open spec fn remaining(self, dir: Dir1D) -> nat {
        (span(self.tree) - 1) as nat + ctx_remaining(self.ctx, dir)
    }

    /// The `NextBlank` (forward) and `PrevBlank` (backward) commands: the
    /// first cursor on a blank that the walk reaches, the present one
    /// included; `Exhausted` where the walk ends before any blank.
    pub open spec fn seek(self, dir: Dir1D) -> Result<Zipper, EditError>
        decreases self.remaining(dir),
    {
        if self.tree is Blank {
            Ok(self)
        } else {
            match self.walk(dir) {
                Ok(z) => {
                    proof {
                        lemma_walk_gets_closer(self, dir);
                    }
                    z.seek(dir)
                },
                Err(e) => Err(e),
            }
        }
    }
}

/// The side of a frame that lies in direction `dir`.
pub open spec fn dir_side<A>(dir: Dir1D, before: Seq<A>, after: Seq<A>) -> Seq<A> {
    match dir {
        Dir1D::Forward => after,
        Dir1D::Backward => before,
    }
}

/// A frame of slots with the focus moved one place in direction `dir`:
/// the new focus, then the new `before` and `after`.
pub open spec fn shift_slots(dir: Dir1D, before: Seq<Slot>, here: Slot, after: Seq<Slot>) -> (
    Slot,
    Seq<Slot>,
    Seq<Slot>,
) {
    match dir {
        Dir1D::Forward => (after[0], before.push(here), after.drop_first()),
        Dir1D::Backward => (before.last(), before.drop_last(), seq![here] + after),
    }
}

/// A frame of arms with the focus moved one place in direction `dir`.
pub open spec fn shift_arms(dir: Dir1D, before: Seq<Arm>, here: Arm, after: Seq<Arm>) -> (
    Arm,
    Seq<Arm>,
    Seq<Arm>,
) {
    match dir {
        Dir1D::Forward => (after[0], before.push(here), after.drop_first()),
        Dir1D::Backward => (before.last(), before.drop_last(), seq![here] + after),
    }
}

// ---------------------------------------------------------------------------
// The editor as a state machine

impl Zipper {
    /// The cursor that the edit command `cmd` leaves, or why it fails.
    ///
    /// `Commit` and `GotoRoot` ascend all the way. The two commands that
    /// insert into a sequence are not implemented: on a sequence they fail
    /// with `NotImplemented`, on any other focus with `WrongTag`.
    pub open spec fn edit(self, cmd: EditCommand) -> Result<Zipper, EditError> {
        match cmd {
            EditCommand::Commit => Ok(self.top()),
            EditCommand::GotoRoot => Ok(self.top()),
            EditCommand::AutoFill => Ok(self.auto_fill()),
            EditCommand::Clear => Ok(self.clear()),
            EditCommand::NextTree => self.walk(Dir1D::Forward),
            EditCommand::PrevTree => self.walk(Dir1D::Backward),
            EditCommand::Ascend => self.ascend(),
            EditCommand::Descend => self.descend(Dir1D::Forward),
            EditCommand::NextSibling => self.sibling(Dir1D::Forward),
            EditCommand::PrevSibling => self.sibling(Dir1D::Backward),
            EditCommand::NextVariant => self.cycle_variant(Dir1D::Forward),
            EditCommand::PrevVariant => self.cycle_variant(Dir1D::Backward),
            EditCommand::AcceptVariant => self.accept_variant(),
            EditCommand::NextBlank => self.seek(Dir1D::Forward),
            EditCommand::PrevBlank => self.seek(Dir1D::Backward),
            EditCommand::VecInsertBlank | EditCommand::VecInsertAuto => if self.tree is Vec {
                Err(EditError::NotImplemented)
            } else {
                Err(EditError::WrongTag)
            },
        }
    }
}

impl CommandView {
    /// An `Init` command is sound where its tree conforms to its schema.
    pub open spec fn wf(self) -> bool {
        match self {
            CommandView::Init(t, s) => conforms(t, s),
            _ => true,
        }
    }
}

impl EditorView {
    /// An editor that has not been set up and has seen no command.
    pub open spec fn fresh() -> EditorView {
        EditorView { state: None, history: Seq::empty() }
    }

    /// The cursor, where there is one, is well formed.
    pub open spec fn wf(self) -> bool {
        match self.state {
            Some(z) => z.wf(),
            None => true,
        }
    }

    /// The cursor after the command `cmd`, or why the command fails. `Init`
    /// sets the cursor up anew; an edit needs a cursor.
    pub open spec fn step(self, cmd: CommandView) -> Result<Zipper, EditError> {
        match cmd {
            CommandView::Init(t, s) => Ok(Zipper::start(t, s)),
            CommandView::Edit(c) => match self.state {
                Some(z) => z.edit(c),
                None => Err(EditError::NotInitialized),
            },
            _ => Err(EditError::NotImplemented),
        }
    }

    /// The editor after the command `cmd`: the command joins the history
    /// whatever comes of it, and the cursor changes only where it succeeds.
    pub open spec fn eval(self, cmd: CommandView) -> EditorView {
        EditorView {
            state: match self.step(cmd) {
                Ok(z) => Some(z),
                Err(_) => self.state,
            },
            history: self.history.push(cmd),
        }
    }
}

impl EditorView {
    /// The editor after the commands `cmds`, given in order.
    pub open spec fn run(self, cmds: Seq<CommandView>) -> EditorView
        decreases cmds.len(),
    {
        if cmds.len() == 0 {
            self
        } else {
            self.run(cmds.drop_last()).eval(cmds.last())
        }
    }
}

// ---------------------------------------------------------------------------
// Trees without blanks

/// No node of `t` is a blank, the arms of a union that are not chosen
/// included.
pub open spec fn no_blank(t: Tree) -> bool
    decreases t,
{
    match t {
        Tree::Blank(_) => false,
        Tree::Product(arms) => forall|i: int| 0 <= i < arms.len() ==> no_blank((#[trigger] arms[i]).1),
        Tree::Variant(c) => {
            &&& forall|i: int| 0 <= i < c.before.len() ==> no_blank((#[trigger] c.before[i]).1)
            &&& match c.choice {
                Some(a) => no_blank(a.1),
                None => true,
            }
            &&& forall|i: int| 0 <= i < c.after.len() ==> no_blank((#[trigger] c.after[i]).1)
        },
        Tree::Option(_, inner, _) => no_blank(*inner),
        Tree::Vec(ts, _) => forall|i: int| 0 <= i < ts.len() ==> no_blank(#[trigger] ts[i]),
        Tree::Tup(slots) => forall|i: int| 0 <= i < slots.len() ==> no_blank((#[trigger] slots[i]).0),
        _ => true,
    }
}

/// No arm holds a blank.
pub open spec fn arms_no_blank(arms: Seq<Arm>) -> bool {
    forall|i: int| 0 <= i < arms.len() ==> no_blank((#[trigger] arms[i]).1)
}

/// No slot holds a blank.
pub open spec fn slots_no_blank(slots: Seq<Slot>) -> bool {
    forall|i: int| 0 <= i < slots.len() ==> no_blank((#[trigger] slots[i]).0)
}

/// No sibling stored in `ctx` holds a blank.
pub open spec fn ctx_no_blank(ctx: Context) -> bool
    decreases ctx,
{
    match ctx {
        Context::Root(_) => true,
        Context::Tup { before, outer, after } => slots_no_blank(before) && slots_no_blank(after)
            && ctx_no_blank(*outer),
        Context::Vec { before, outer, after } => slots_no_blank(before) && slots_no_blank(after)
            && ctx_no_blank(*outer),
        Context::Product { before, outer, after, .. } => arms_no_blank(before) && arms_no_blank(
            after,
        ) && ctx_no_blank(*outer),
        Context::Variant { before, outer, after, .. } => arms_no_blank(before) && arms_no_blank(
            after,
        ) && ctx_no_blank(*outer),
        Context::Option { outer, .. } => ctx_no_blank(*outer),
    }
}

impl Zipper {
    /// Neither the focus nor anything around it holds a blank.
    pub open spec fn blank_free(self) -> bool {
        no_blank(self.tree) && ctx_no_blank(self.ctx)
    }
}

} // verus!
