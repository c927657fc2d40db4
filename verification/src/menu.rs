//! A structural editor for values of an algebraic type: the data that the
//! editor holds and what each piece of it stands for.

pub mod check;
pub mod draw;
pub mod equal;
pub mod io;
pub mod laws;
pub mod model;
pub mod proofs;
pub mod semantics;
pub mod text;

use crate::menu::model::{
    Arm, Choice, CommandView, Context, EditorView, HaltView, Schema, Slot, Tree, Zipper,
};
pub use crate::menu::model::{EditCommand, EditError, PrimType};
use crate::types::lang::{Name, NameView};
use std::rc::Rc;
use vstd::prelude::*;

verus! {

pub type Text = String;

pub type Nat = usize;

pub type Int = isize;

pub type Label = Name;

/// The declared shape of a value.
#[derive(Debug, Hash)]
pub enum MenuType {
    Prim(PrimType),
    Variant(Vec<(Label, MenuType)>),
    Product(Vec<(Label, MenuType)>),
    Option(Box<MenuType>),
    Vec(Box<MenuType>),
    Tup(Vec<MenuType>),
    Var(Name),
    Func(FuncType),
}

/// The shape of a procedure: never entered by the editor.
#[derive(Debug, Hash)]
pub struct FuncType {
    pub args: Vec<MenuType>,
    pub rets: Vec<MenuType>,
}

/// A value under construction.
#[derive(Debug, Hash)]
pub enum MenuTree {
    Product(Vec<(Label, MenuTree, MenuType)>),
    Variant(Box<LabelChoice>),
    Option(bool, Box<MenuTree>, MenuType),
    Vec(Vec<MenuTree>, MenuType),
    Tup(Vec<(MenuTree, MenuType)>),
    Blank(MenuType),
    Nat(Nat),
    Int(Int),
    Text(Text),
    Bool(bool),
    Unit,
    Null,
}

/// A labelled frame of the context: the siblings on both sides of the focus.
#[derive(Debug, Hash)]
pub struct LabelSelect {
    pub before: Vec<(Label, MenuTree, MenuType)>,
    pub ctx: MenuCtx,
    pub label: Label,
    pub after: Vec<(Label, MenuTree, MenuType)>,
}

/// A positional frame of the context.
#[derive(Debug, Hash)]
pub struct PosSelect {
    pub before: Vec<(MenuTree, MenuType)>,
    pub ctx: MenuCtx,
    pub after: Vec<(MenuTree, MenuType)>,
}

/// The arms of a union, split around the chosen one.
#[derive(Debug, Hash)]
pub struct LabelChoice {
    pub before: Vec<(Label, MenuTree, MenuType)>,
    pub choice: Option<(Label, MenuTree, MenuType)>,
    pub after: Vec<(Label, MenuTree, MenuType)>,
}

/// What a check of a tree against a schema can find.
#[derive(Debug, Hash)]
pub enum Error {
    /// A schema of another kind than the tree asks for.
    MenuTypeMismatch(MenuType, Tag),
    /// A blank where a tree of the given kind is asked for.
    Blank(Tag),
}

/// The coarse kind of a tree, a context or a schema.
#[derive(Clone, Copy, Debug, PartialEq, Eq, Structural, Hash)]
pub enum Tag {
    Root,
    Prim(PrimType),
    Variant,
    Product,
    Option,
    Vec,
    Tup,
    Blank,
    Var,
    Func,
}

/// Everything but the focus.
#[derive(Debug, Hash)]
pub enum MenuCtx {
    Root(MenuType),
    Tup(Box<PosSelect>),
    Product(Box<LabelSelect>),
    Variant(Box<LabelSelect>),
    Option(bool, Box<MenuCtx>),
    Vec(Box<PosSelect>),
}

/// The cursor of the editor.
#[derive(Debug, Hash)]
pub struct MenuState {
    pub root_typ: Rc<MenuType>,
    pub ctx: MenuCtx,
    pub tree: MenuTree,
    pub tree_typ: MenuType,
}

/// A command that sets the editor up.
#[derive(Debug, Hash)]
pub enum InitCommand {
    Default(MenuTree, MenuType),
}

/// A command that does not depend on where the cursor is.
#[derive(Debug, Hash)]
pub enum AutoCommand {
    CheckMenuType,
    CheckComplete,
    Replace(MenuTree),
}

#[derive(Debug, Hash)]
pub enum Command {
    Init(InitCommand),
    Auto(AutoCommand),
    Edit(EditCommand),
}

/// The editor: its cursor, once set up, and every command it was given.
#[derive(Debug, Hash)]
pub struct Editor {
    pub state: Option<MenuState>,
    pub history: Vec<Command>,
}

/// How a command ended when it did not simply succeed.
#[derive(Debug, Hash)]
pub enum Halt {
    /// The finished tree, handed over by `Commit`.
    Commit(MenuTree),
    /// The command failed and changed nothing.
    Message(EditError),
}

// ---------------------------------------------------------------------------
// What the data stands for

impl View for Halt {
    type V = HaltView;

    open spec fn view(&self) -> HaltView {
        match self {
            Halt::Commit(t) => HaltView::Commit(t@),
            Halt::Message(e) => HaltView::Message(*e),
        }
    }
}

impl View for Command {
    type V = CommandView;

    open spec fn view(&self) -> CommandView {
        match self {
            Command::Init(InitCommand::Default(t, s)) => CommandView::Init(t@, s@),
            Command::Auto(AutoCommand::CheckMenuType) => CommandView::CheckMenuType,
            Command::Auto(AutoCommand::CheckComplete) => CommandView::CheckComplete,
            Command::Auto(AutoCommand::Replace(t)) => CommandView::Replace(t@),
            Command::Edit(c) => CommandView::Edit(*c),
        }
    }
}

/// The model of each command, in order.
pub open spec fn commands_model(v: Seq<Command>) -> Seq<CommandView> {
    Seq::new(v.len(), |i: int| v[i]@)
}

impl View for Editor {
    type V = EditorView;

    open spec fn view(&self) -> EditorView {
        EditorView {
            state: match self.state {
                Some(s) => Some(s@),
                None => None,
            },
            history: commands_model(self.history@),
        }
    }
}

/// The model of each labelled schema, in order.
pub open spec fn fields_model(v: Seq<(Label, MenuType)>) -> Seq<(NameView, Schema)>
    decreases v,
{
    Seq::new(v.len(), |i: int| if 0 <= i < v.len() { (v[i].0@, v[i].1.model()) } else { arbitrary() })
}

/// The model of each schema, in order.
pub open spec fn types_model(v: Seq<MenuType>) -> Seq<Schema>
    decreases v,
{
    Seq::new(v.len(), |i: int| if 0 <= i < v.len() { v[i].model() } else { arbitrary() })
}

impl MenuType {
    /// The schema that this value stands for.
    pub open spec fn model(self) -> Schema
        decreases self,
    {
        match self {
            MenuType::Prim(p) => Schema::Prim(p),
            MenuType::Variant(fs) => Schema::Variant(fields_model(fs@)),
            MenuType::Product(fs) => Schema::Product(fields_model(fs@)),
            MenuType::Option(t) => Schema::Option(Box::new(t.model())),
            MenuType::Vec(t) => Schema::Vec(Box::new(t.model())),
            MenuType::Tup(ts) => Schema::Tup(types_model(ts@)),
            MenuType::Var(n) => Schema::Var(n@),
            MenuType::Func(f) => Schema::Func(types_model(f.args@), types_model(f.rets@)),
        }
    }
}

impl View for MenuType {
    type V = Schema;

    open spec fn view(&self) -> Schema {
        self.model()
    }
}

/// The model of each arm, in order.
pub open spec fn arms_model(v: Seq<(Label, MenuTree, MenuType)>) -> Seq<Arm>
    decreases v,
{
    Seq::new(
        v.len(),
        |i: int| if 0 <= i < v.len() { (v[i].0@, v[i].1.model(), v[i].2@) } else { arbitrary() },
    )
}

/// The model of each slot, in order.
pub open spec fn slots_model(v: Seq<(MenuTree, MenuType)>) -> Seq<Slot>
    decreases v,
{
    Seq::new(v.len(), |i: int| if 0 <= i < v.len() { (v[i].0.model(), v[i].1@) } else { arbitrary() })
}

/// The model of each tree, in order.
pub open spec fn trees_model(v: Seq<MenuTree>) -> Seq<Tree>
    decreases v,
{
    Seq::new(v.len(), |i: int| if 0 <= i < v.len() { v[i].model() } else { arbitrary() })
}

/// The model of an arm that may be absent.
pub open spec fn opt_arm_model(a: Option<(Label, MenuTree, MenuType)>) -> Option<Arm>
    decreases a,
{
    match a {
        Some(x) => Some((x.0@, x.1.model(), x.2@)),
        None => None,
    }
}

impl MenuTree {
    /// The tree that this value stands for.
    pub open spec fn model(self) -> Tree
        decreases self,
    {
        match self {
            MenuTree::Product(arms) => Tree::Product(arms_model(arms@)),
            MenuTree::Variant(c) => Tree::Variant(
                Box::new(
                    Choice {
                        before: arms_model(c.before@),
                        choice: opt_arm_model(c.choice),
                        after: arms_model(c.after@),
                    },
                ),
            ),
            MenuTree::Option(b, t, s) => Tree::Option(b, Box::new(t.model()), s@),
            MenuTree::Vec(ts, s) => Tree::Vec(trees_model(ts@), s@),
            MenuTree::Tup(slots) => Tree::Tup(slots_model(slots@)),
            MenuTree::Blank(s) => Tree::Blank(s@),
            MenuTree::Nat(n) => Tree::Nat(n),
            MenuTree::Int(i) => Tree::Int(i),
            MenuTree::Text(t) => Tree::Text(t@),
            MenuTree::Bool(b) => Tree::Bool(b),
            MenuTree::Unit => Tree::Unit,
            MenuTree::Null => Tree::Null,
        }
    }
}

impl View for MenuTree {
    type V = Tree;

    open spec fn view(&self) -> Tree {
        self.model()
    }
}

impl View for LabelChoice {
    type V = Choice;

    open spec fn view(&self) -> Choice {
        Choice {
            before: arms_model(self.before@),
            choice: opt_arm_model(self.choice),
            after: arms_model(self.after@),
        }
    }
}

impl MenuCtx {
    /// The context that this value stands for.
    pub open spec fn model(self) -> Context
        decreases self,
    {
        match self {
            MenuCtx::Root(s) => Context::Root(s@),
            MenuCtx::Tup(sel) => Context::Tup {
                before: slots_model(sel.before@),
                outer: Box::new(sel.ctx.model()),
                after: slots_model(sel.after@),
            },
            MenuCtx::Product(sel) => Context::Product {
                before: arms_model(sel.before@),
                outer: Box::new(sel.ctx.model()),
                label: sel.label@,
                after: arms_model(sel.after@),
            },
            MenuCtx::Variant(sel) => Context::Variant {
                before: arms_model(sel.before@),
                outer: Box::new(sel.ctx.model()),
                label: sel.label@,
                after: arms_model(sel.after@),
            },
            MenuCtx::Option(present, outer) => Context::Option {
                present,
                outer: Box::new(outer.model()),
            },
            MenuCtx::Vec(sel) => Context::Vec {
                before: slots_model(sel.before@),
                outer: Box::new(sel.ctx.model()),
                after: slots_model(sel.after@),
            },
        }
    }
}

impl View for MenuCtx {
    type V = Context;

    open spec fn view(&self) -> Context {
        self.model()
    }
}

impl View for MenuState {
    type V = Zipper;

    open spec fn view(&self) -> Zipper {
        Zipper { root: (*self.root_typ)@, ctx: self.ctx@, tree: self.tree@, typ: self.tree_typ@ }
    }
}

// ---------------------------------------------------------------------------
// Copies

/// A copy of each labelled schema.
pub fn clone_fields(v: &Vec<(Label, MenuType)>) -> (r: Vec<(Label, MenuType)>)
    ensures
        fields_model(r@) == fields_model(v@),
    decreases v,
{
    let mut out: Vec<(Label, MenuType)> = Vec::new();
    let mut i: usize = 0;
    while i < v.len()
        invariant
            i <= v.len(),
            out.len() == i,
            forall|j: int| 0 <= j < i ==> out@[j].0@ == v@[j].0@ && out@[j].1@ == v@[j].1@,
        decreases v.len() - i,
    {
        out.push((v[i].0.clone(), v[i].1.clone()));
        i += 1;
    }
    assert(fields_model(out@) =~= fields_model(v@));
    out
}

/// A copy of each schema.
pub fn clone_types(v: &Vec<MenuType>) -> (r: Vec<MenuType>)
    ensures
        types_model(r@) == types_model(v@),
    decreases v,
{
    let mut out: Vec<MenuType> = Vec::new();
    let mut i: usize = 0;
    while i < v.len()
        invariant
            i <= v.len(),
            out.len() == i,
            forall|j: int| 0 <= j < i ==> out@[j]@ == v@[j]@,
        decreases v.len() - i,
    {
        out.push(v[i].clone());
        i += 1;
    }
    assert(types_model(out@) =~= types_model(v@));
    out
}

impl Clone for MenuType {
    fn clone(&self) -> (r: MenuType)
        ensures
            r@ == self@,
        decreases self,
    {
        match self {
            MenuType::Prim(p) => MenuType::Prim(*p),
            MenuType::Variant(fs) => MenuType::Variant(clone_fields(fs)),
            MenuType::Product(fs) => MenuType::Product(clone_fields(fs)),
            MenuType::Option(t) => MenuType::Option(Box::new((**t).clone())),
            MenuType::Vec(t) => MenuType::Vec(Box::new((**t).clone())),
            MenuType::Tup(ts) => MenuType::Tup(clone_types(ts)),
            MenuType::Var(n) => MenuType::Var(n.clone()),
            MenuType::Func(f) => MenuType::Func(
                FuncType { args: clone_types(&f.args), rets: clone_types(&f.rets) },
            ),
        }
    }
}

impl Clone for FuncType {
    fn clone(&self) -> (r: FuncType)
        ensures
            types_model(r.args@) == types_model(self.args@),
            types_model(r.rets@) == types_model(self.rets@),
    {
        FuncType { args: clone_types(&self.args), rets: clone_types(&self.rets) }
    }
}

/// A copy of each arm.
pub fn clone_arms(v: &Vec<(Label, MenuTree, MenuType)>) -> (r: Vec<(Label, MenuTree, MenuType)>)
    ensures
        arms_model(r@) == arms_model(v@),
    decreases v,
{
    let mut out: Vec<(Label, MenuTree, MenuType)> = Vec::new();
    let mut i: usize = 0;
    while i < v.len()
        invariant
            i <= v.len(),
            out.len() == i,
            forall|j: int|
                0 <= j < i ==> out@[j].0@ == v@[j].0@ && out@[j].1@ == v@[j].1@ && out@[j].2@
                    == v@[j].2@,
        decreases v.len() - i,
    {
        out.push((v[i].0.clone(), v[i].1.clone(), v[i].2.clone()));
        i += 1;
    }
    assert(arms_model(out@) =~= arms_model(v@));
    out
}

/// A copy of each slot.
pub fn clone_slots(v: &Vec<(MenuTree, MenuType)>) -> (r: Vec<(MenuTree, MenuType)>)
    ensures
        slots_model(r@) == slots_model(v@),
    decreases v,
{
    let mut out: Vec<(MenuTree, MenuType)> = Vec::new();
    let mut i: usize = 0;
    while i < v.len()
        invariant
            i <= v.len(),
            out.len() == i,
            forall|j: int| 0 <= j < i ==> out@[j].0@ == v@[j].0@ && out@[j].1@ == v@[j].1@,
        decreases v.len() - i,
    {
        out.push((v[i].0.clone(), v[i].1.clone()));
        i += 1;
    }
    assert(slots_model(out@) =~= slots_model(v@));
    out
}

/// A copy of each tree.
pub fn clone_trees(v: &Vec<MenuTree>) -> (r: Vec<MenuTree>)
    ensures
        trees_model(r@) == trees_model(v@),
    decreases v,
{
    let mut out: Vec<MenuTree> = Vec::new();
    let mut i: usize = 0;
    while i < v.len()
        invariant
            i <= v.len(),
            out.len() == i,
            forall|j: int| 0 <= j < i ==> out@[j]@ == v@[j]@,
        decreases v.len() - i,
    {
        out.push(v[i].clone());
        i += 1;
    }
    assert(trees_model(out@) =~= trees_model(v@));
    out
}

impl Clone for MenuTree {
    fn clone(&self) -> (r: MenuTree)
        ensures
            r@ == self@,
        decreases self,
    {
        match self {
            MenuTree::Product(arms) => MenuTree::Product(clone_arms(arms)),
            MenuTree::Variant(c) => {
                let choice = match &c.choice {
                    Some(a) => Some((a.0.clone(), a.1.clone(), a.2.clone())),
                    None => None,
                };
                assert(opt_arm_model(choice) == opt_arm_model(c.choice));
                MenuTree::Variant(
                    Box::new(
                        LabelChoice {
                            before: clone_arms(&c.before),
                            choice,
                            after: clone_arms(&c.after),
                        },
                    ),
                )
            },
            MenuTree::Option(b, t, s) => MenuTree::Option(*b, Box::new((**t).clone()), s.clone()),
            MenuTree::Vec(ts, s) => MenuTree::Vec(clone_trees(ts), s.clone()),
            MenuTree::Tup(slots) => MenuTree::Tup(clone_slots(slots)),
            MenuTree::Blank(s) => MenuTree::Blank(s.clone()),
            MenuTree::Nat(n) => MenuTree::Nat(*n),
            MenuTree::Int(i) => MenuTree::Int(*i),
            MenuTree::Text(t) => MenuTree::Text(t.clone()),
            MenuTree::Bool(b) => MenuTree::Bool(*b),
            MenuTree::Unit => MenuTree::Unit,
            MenuTree::Null => MenuTree::Null,
        }
    }
}

impl Clone for LabelChoice {
    fn clone(&self) -> (r: LabelChoice)
        ensures
            r@ == self@,
    {
        let choice = match &self.choice {
            Some(a) => Some((a.0.clone(), a.1.clone(), a.2.clone())),
            None => None,
        };
        LabelChoice { before: clone_arms(&self.before), choice, after: clone_arms(&self.after) }
    }
}

impl Clone for MenuCtx {
    fn clone(&self) -> (r: MenuCtx)
        ensures
            r@ == self@,
        decreases self,
    {
        match self {
            MenuCtx::Root(s) => MenuCtx::Root(s.clone()),
            MenuCtx::Tup(sel) => MenuCtx::Tup(
                Box::new(
                    PosSelect {
                        before: clone_slots(&sel.before),
                        ctx: sel.ctx.clone(),
                        after: clone_slots(&sel.after),
                    },
                ),
            ),
            MenuCtx::Product(sel) => MenuCtx::Product(
                Box::new(
                    LabelSelect {
                        before: clone_arms(&sel.before),
                        ctx: sel.ctx.clone(),
                        label: sel.label.clone(),
                        after: clone_arms(&sel.after),
                    },
                ),
            ),
            MenuCtx::Variant(sel) => MenuCtx::Variant(
                Box::new(
                    LabelSelect {
                        before: clone_arms(&sel.before),
                        ctx: sel.ctx.clone(),
                        label: sel.label.clone(),
                        after: clone_arms(&sel.after),
                    },
                ),
            ),
            MenuCtx::Option(present, outer) => MenuCtx::Option(
                *present,
                Box::new((**outer).clone()),
            ),
            MenuCtx::Vec(sel) => MenuCtx::Vec(
                Box::new(
                    PosSelect {
                        before: clone_slots(&sel.before),
                        ctx: sel.ctx.clone(),
                        after: clone_slots(&sel.after),
                    },
                ),
            ),
        }
    }
}

impl Clone for MenuState {
    fn clone(&self) -> (r: MenuState)
        ensures
            r@ == self@,
    {
        MenuState {
            root_typ: Rc::new((*self.root_typ).clone()),
            ctx: self.ctx.clone(),
            tree: self.tree.clone(),
            tree_typ: self.tree_typ.clone(),
        }
    }
}

impl Clone for Command {
    fn clone(&self) -> (r: Command)
        ensures
            r@ == self@,
    {
        match self {
            Command::Init(InitCommand::Default(t, s)) => Command::Init(
                InitCommand::Default(t.clone(), s.clone()),
            ),
            Command::Auto(AutoCommand::CheckMenuType) => Command::Auto(AutoCommand::CheckMenuType),
            Command::Auto(AutoCommand::CheckComplete) => Command::Auto(AutoCommand::CheckComplete),
            Command::Auto(AutoCommand::Replace(t)) => Command::Auto(AutoCommand::Replace(t.clone())),
            Command::Edit(c) => Command::Edit(*c),
        }
    }
}

impl Editor {
    /// An editor that has not been set up and has seen no command.
    pub fn new() -> (r: Editor)
        ensures
            r@ == EditorView::fresh(),
    {
        let r = Editor { state: None, history: Vec::new() };
        assert(r@.history =~= Seq::<CommandView>::empty());
        r
    }
}

} // verus!
