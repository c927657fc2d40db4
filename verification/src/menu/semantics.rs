//! The commands of the structural editor, each proved to compute the move
//! that `menu::model` defines for it.

use crate::menu::model::{
    arm_schemas, climbable, conforms, depth, dir_side, fill, fill_arms, fill_slots, merge,
    merge_arms, mergeable, opt_arm, CommandView, EditorView,
    shift_arms, shift_slots, slot_schemas, slot_trees, slots_of, Arm, Choice, Context,
    EditError, PrimType, Schema, Slot, Tree, Zipper,
};
use crate::menu::{
    arms_model, commands_model, fields_model, opt_arm_model, slots_model, trees_model, types_model,
    Command,
    EditCommand, Editor, Halt, HaltView, InitCommand, Label, LabelChoice, LabelSelect, MenuCtx,
    MenuState, MenuTree, MenuType, PosSelect, Tag,
};
use crate::menu::proofs::{
    lemma_ascend_wf, lemma_climb_result, lemma_climb_wf, lemma_cycle_wf, lemma_descend_wf,
    lemma_edit_wf, lemma_enter_wf, lemma_fill_conforms, lemma_merge_conforms, lemma_seek_wf,
    lemma_sibling_wf, lemma_top_wf, lemma_walk_gets_closer, lemma_walk_wf,
};
use crate::types::lang::Dir1D;
use vstd::prelude::*;

verus! {

pub type Res = Result<(), Halt>;

/// How a command that computes `step` from the cursor `before` must end:
/// with the new cursor in place, or with the failure reported and the cursor
/// as it was.
pub open spec fn outcome(before: Zipper, step: Result<Zipper, EditError>, after: Zipper, res: Res) -> bool {
    match step {
        Ok(z) => res is Ok && after == z,
        Err(e) => failed(res, e) && after == before,
    }
}

/// `res` reports the failure `e`.
pub open spec fn failed(res: Res, e: EditError) -> bool {
    res matches Err(h) && h@ == HaltView::Message(e)
}

pub fn tree_tag(tree: &MenuTree) -> (tag: Tag)
    ensures
        tag == tree_tag_of(tree@),
{
    match tree {
        MenuTree::Product(_) => Tag::Product,
        MenuTree::Variant(_) => Tag::Variant,
        MenuTree::Option(_, _, _) => Tag::Option,
        MenuTree::Vec(_, _) => Tag::Vec,
        MenuTree::Tup(_) => Tag::Tup,
        MenuTree::Blank(_) => Tag::Blank,
        MenuTree::Nat(_) => Tag::Prim(PrimType::Nat),
        MenuTree::Int(_) => Tag::Prim(PrimType::Int),
        MenuTree::Bool(_) => Tag::Prim(PrimType::Bool),
        MenuTree::Text(_) => Tag::Prim(PrimType::Text),
        MenuTree::Unit => Tag::Prim(PrimType::Unit),
        MenuTree::Null => Tag::Prim(PrimType::Null),
    }
}

/// The kind of a tree.
pub open spec fn tree_tag_of(tree: Tree) -> Tag {
    match tree {
        Tree::Product(_) => Tag::Product,
        Tree::Variant(_) => Tag::Variant,
        Tree::Option(_, _, _) => Tag::Option,
        Tree::Vec(_, _) => Tag::Vec,
        Tree::Tup(_) => Tag::Tup,
        Tree::Blank(_) => Tag::Blank,
        Tree::Nat(_) => Tag::Prim(PrimType::Nat),
        Tree::Int(_) => Tag::Prim(PrimType::Int),
        Tree::Bool(_) => Tag::Prim(PrimType::Bool),
        Tree::Text(_) => Tag::Prim(PrimType::Text),
        Tree::Unit => Tag::Prim(PrimType::Unit),
        Tree::Null => Tag::Prim(PrimType::Null),
    }
}

pub fn ctx_tag(ctx: &MenuCtx) -> (tag: Tag)
    ensures
        tag == ctx_tag_of(ctx@),
{
    match ctx {
        MenuCtx::Root(_) => Tag::Root,
        MenuCtx::Product(_) => Tag::Product,
        MenuCtx::Variant(_) => Tag::Variant,
        MenuCtx::Option(_, _) => Tag::Option,
        MenuCtx::Tup(_) => Tag::Tup,
        MenuCtx::Vec(_) => Tag::Vec,
    }
}

/// The kind of the innermost frame of a context.
pub open spec fn ctx_tag_of(ctx: Context) -> Tag {
    match ctx {
        Context::Root(_) => Tag::Root,
        Context::Product { .. } => Tag::Product,
        Context::Variant { .. } => Tag::Variant,
        Context::Option { .. } => Tag::Option,
        Context::Tup { .. } => Tag::Tup,
        Context::Vec { .. } => Tag::Vec,
    }
}

pub fn typ_tag(typ: &MenuType) -> (tag: Tag)
    ensures
        tag == typ_tag_of(typ@),
{
    match typ {
        MenuType::Prim(t) => Tag::Prim(*t),
        MenuType::Product(_) => Tag::Product,
        MenuType::Variant(_) => Tag::Variant,
        MenuType::Option(_) => Tag::Option,
        MenuType::Tup(_) => Tag::Tup,
        MenuType::Vec(_) => Tag::Vec,
        MenuType::Var(_) => Tag::Var,
        MenuType::Func(_) => Tag::Func,
    }
}

/// The kind of a schema.
pub open spec fn typ_tag_of(typ: Schema) -> Tag {
    match typ {
        Schema::Prim(t) => Tag::Prim(t),
        Schema::Product(_) => Tag::Product,
        Schema::Variant(_) => Tag::Variant,
        Schema::Option(_) => Tag::Option,
        Schema::Tup(_) => Tag::Tup,
        Schema::Vec(_) => Tag::Vec,
        Schema::Var(_) => Tag::Var,
        Schema::Func(_, _) => Tag::Func,
    }
}

pub fn assert_tree_tag(tree: &MenuTree, tag: &Tag) -> (res: Res)
    ensures
        tree_tag_of(tree@) == *tag ==> res is Ok,
        tree_tag_of(tree@) != *tag ==> failed(res, EditError::WrongTag),
{
    let tt = tree_tag(tree);
    if tt == *tag {
        Ok(())
    } else {
        Err(Halt::Message(EditError::WrongTag))
    }
}

// ---------------------------------------------------------------------------
// Taking a field out from behind `&mut`

fn take_ctx(ctx: &mut MenuCtx) -> (r: MenuCtx)
    ensures
        r == *old(ctx),
{
    let mut out = MenuCtx::Root(MenuType::Prim(PrimType::Null));
    core::mem::swap(ctx, &mut out);
    out
}

fn take_tree(tree: &mut MenuTree) -> (r: MenuTree)
    ensures
        r == *old(tree),
{
    let mut out = MenuTree::Null;
    core::mem::swap(tree, &mut out);
    out
}

fn take_type(typ: &mut MenuType) -> (r: MenuType)
    ensures
        r == *old(typ),
{
    let mut out = MenuType::Prim(PrimType::Null);
    core::mem::swap(typ, &mut out);
    out
}

/// The label and schema of each arm, copied out in order.
fn arm_types(arms: &Vec<(Label, MenuTree, MenuType)>) -> (r: Vec<(Label, MenuType)>)
    ensures
        fields_model(r@) == arm_schemas(arms_model(arms@)),
{
    let mut out: Vec<(Label, MenuType)> = Vec::new();
    let mut i: usize = 0;
    while i < arms.len()
        invariant
            i <= arms.len(),
            out.len() == i,
            forall|j: int| 0 <= j < i ==> out@[j].0@ == arms@[j].0@ && out@[j].1@ == arms@[j].2@,
        decreases arms.len() - i,
    {
        out.push((arms[i].0.clone(), arms[i].2.clone()));
        i += 1;
    }
    assert(fields_model(out@) =~= arm_schemas(arms_model(arms@)));
    out
}

/// The schema of each slot, copied out in order.
fn slot_types(slots: &Vec<(MenuTree, MenuType)>) -> (r: Vec<MenuType>)
    ensures
        types_model(r@) == slot_schemas(slots_model(slots@)),
{
    let mut out: Vec<MenuType> = Vec::new();
    let mut i: usize = 0;
    while i < slots.len()
        invariant
            i <= slots.len(),
            out.len() == i,
            forall|j: int| 0 <= j < i ==> out@[j]@ == slots@[j].1@,
        decreases slots.len() - i,
    {
        out.push(slots[i].1.clone());
        i += 1;
    }
    assert(types_model(out@) =~= slot_schemas(slots_model(slots@)));
    out
}

/// The same items in the opposite order.
fn reversed<T>(v: Vec<T>) -> (r: Vec<T>)
    ensures
        r@.len() == v@.len(),
        forall|j: int| 0 <= j < v@.len() ==> r@[j] == v@[v@.len() - 1 - j],
{
    let mut v = v;
    let ghost all = v@;
    let mut out: Vec<T> = Vec::new();
    while v.len() > 0
        invariant
            v@.len() + out@.len() == all.len(),
            forall|j: int| 0 <= j < v@.len() ==> v@[j] == all[j],
            forall|j: int| 0 <= j < out@.len() ==> out@[j] == all[all.len() - 1 - j],
        decreases v.len(),
    {
        let x = v.pop().unwrap();
        out.push(x);
    }
    out
}

/// Moves the subtree of each slot of `slots` to the end of `trees`.
fn drain_trees(trees: &mut Vec<MenuTree>, slots: Vec<(MenuTree, MenuType)>)
    ensures
        trees_model(final(trees)@) == trees_model(old(trees)@) + slot_trees(slots_model(slots@)),
{
    let ghost all = slots@;
    let ghost start = trees@;
    let mut rest = reversed(slots);
    while rest.len() > 0
        invariant
            rest@.len() <= all.len(),
            forall|j: int| 0 <= j < rest@.len() ==> rest@[j] == all[all.len() - 1 - j],
            trees@.len() == start.len() + (all.len() - rest@.len()),
            forall|j: int| 0 <= j < start.len() ==> trees@[j] == start[j],
            forall|j: int|
                0 <= j < all.len() - rest@.len() ==> trees@[start.len() + j] == all[j].0,
        decreases rest.len(),
    {
        let (t, _) = rest.pop().unwrap();
        trees.push(t);
    }
    assert(trees_model(trees@) =~= trees_model(start) + slot_trees(slots_model(all)));
}

/// Each tree of `trees`, in order, paired with a copy of `typ`.
fn pair_trees(trees: Vec<MenuTree>, typ: &MenuType) -> (r: Vec<(MenuTree, MenuType)>)
    ensures
        slots_model(r@) == slots_of(trees_model(trees@), typ@),
{
    let ghost all = trees@;
    let mut rest = reversed(trees);
    let mut out: Vec<(MenuTree, MenuType)> = Vec::new();
    while rest.len() > 0
        invariant
            rest@.len() <= all.len(),
            forall|j: int| 0 <= j < rest@.len() ==> rest@[j] == all[all.len() - 1 - j],
            out@.len() == all.len() - rest@.len(),
            forall|j: int| 0 <= j < out@.len() ==> out@[j].0 == all[j] && out@[j].1@ == typ@,
        decreases rest.len(),
    {
        let t = rest.pop().unwrap();
        out.push((t, typ.clone()));
    }
    assert(slots_model(out@) =~= slots_of(trees_model(all), typ@));
    out
}

// ---------------------------------------------------------------------------
// Ascend

/// Moves the focus one level toward the root, closing the innermost frame
/// over it. Fails with `AtRoot` at the root.
pub fn ascend(menu: &mut MenuState) -> (res: Res)
    ensures
        outcome(old(menu)@, old(menu)@.ascend(), final(menu)@, res),
        old(menu)@.wf() ==> final(menu)@.wf(),
{
    proof {
        if menu@.wf() && menu@.ascend() is Ok {
            lemma_ascend_wf(menu@);
        }
    }
    let ctx = take_ctx(&mut menu.ctx);
    match ctx {
        MenuCtx::Root(s) => {
            menu.ctx = MenuCtx::Root(s);
            Err(Halt::Message(EditError::AtRoot))
        },
        MenuCtx::Tup(sel) => {
            let tree = take_tree(&mut menu.tree);
            let typ = take_type(&mut menu.tree_typ);
            let PosSelect { before, ctx: outer, after } = *sel;
            let mut slots = before;
            let mut after = after;
            let ghost b = slots@;
            let ghost a = after@;
            slots.push((tree, typ));
            slots.append(&mut after);
            assert(slots_model(slots@) =~= slots_model(b).push((tree@, typ@)) + slots_model(a));
            let fields = slot_types(&slots);
            menu.tree = MenuTree::Tup(slots);
            menu.tree_typ = MenuType::Tup(fields);
            menu.ctx = outer;
            Ok(())
        },
        MenuCtx::Product(sel) => {
            let tree = take_tree(&mut menu.tree);
            let typ = take_type(&mut menu.tree_typ);
            let LabelSelect { before, ctx: outer, label, after } = *sel;
            let mut arms = before;
            let mut after = after;
            let ghost b = arms@;
            let ghost a = after@;
            arms.push((label, tree, typ));
            arms.append(&mut after);
            assert(arms_model(arms@) =~= arms_model(b).push((label@, tree@, typ@)) + arms_model(a));
            let fields = arm_types(&arms);
            menu.tree = MenuTree::Product(arms);
            menu.tree_typ = MenuType::Product(fields);
            menu.ctx = outer;
            Ok(())
        },
        MenuCtx::Variant(sel) => {
            let tree = take_tree(&mut menu.tree);
            let typ = take_type(&mut menu.tree_typ);
            let LabelSelect { before, ctx: outer, label, after } = *sel;
            let mut fields = arm_types(&before);
            let mut tail = arm_types(&after);
            let ghost f0 = fields@;
            let ghost t0 = tail@;
            fields.push((label.clone(), typ.clone()));
            fields.append(&mut tail);
            let choice = LabelChoice { before, choice: Some((label, tree, typ)), after };
            assert(fields_model(fields@) =~= arm_schemas(choice@.arms())) by {
                assert(fields_model(fields@) =~= fields_model(f0).push((label@, typ@)) + fields_model(
                    t0,
                ));
            }
            menu.tree = MenuTree::Variant(Box::new(choice));
            menu.tree_typ = MenuType::Variant(fields);
            menu.ctx = outer;
            Ok(())
        },
        MenuCtx::Option(present, outer) => {
            let tree = take_tree(&mut menu.tree);
            let typ = take_type(&mut menu.tree_typ);
            menu.tree = MenuTree::Option(present, Box::new(tree), typ.clone());
            menu.tree_typ = MenuType::Option(Box::new(typ));
            menu.ctx = *outer;
            Ok(())
        },
        MenuCtx::Vec(sel) => {
            let tree = take_tree(&mut menu.tree);
            let typ = take_type(&mut menu.tree_typ);
            let PosSelect { before, ctx: outer, after } = *sel;
            let mut trees: Vec<MenuTree> = Vec::new();
            drain_trees(&mut trees, before);
            let ghost t0 = trees@;
            trees.push(tree);
            assert(trees_model(trees@) =~= trees_model(t0).push(tree@));
            drain_trees(&mut trees, after);
            assert(trees_model(t0) =~= slot_trees(slots_model(before@)));
            menu.tree = MenuTree::Vec(trees, typ.clone());
            menu.tree_typ = MenuType::Vec(Box::new(typ));
            menu.ctx = outer;
            Ok(())
        },
    }
}

// ---------------------------------------------------------------------------
// Descend

/// Moves the focus one level into itself: to the first occupant of a record,
/// tuple or sequence going forward, the last going backward; to the payload
/// of an option; to the chosen arm of a union.
///
/// Fails with `NoSubtree` on a blank or on a structure with no occupant, with
/// `NoChosenArm` on a union with no arm chosen, and with `NotImplemented` on
/// a leaf.
pub fn enter(menu: &mut MenuState, dir: Dir1D) -> (res: Res)
    ensures
        outcome(old(menu)@, old(menu)@.enter(dir), final(menu)@, res),
        old(menu)@.wf() ==> final(menu)@.wf(),
{
    proof {
        if menu@.wf() && menu@.enter(dir) is Ok {
            lemma_enter_wf(menu@, dir);
        }
    }
    let tree = take_tree(&mut menu.tree);
    match tree {
        MenuTree::Blank(s) => {
            menu.tree = MenuTree::Blank(s);
            Err(Halt::Message(EditError::NoSubtree))
        },
        MenuTree::Tup(slots) => {
            if slots.len() == 0 {
                assert(slots_model(slots@).len() == 0);
                menu.tree = MenuTree::Tup(slots);
                Err(Halt::Message(EditError::NoSubtree))
            } else {
                let mut slots = slots;
                let ghost all = slots@;
                let outer = take_ctx(&mut menu.ctx);
                match dir {
                    Dir1D::Forward => {
                        let (t, ty) = slots.remove(0);
                        assert(slots_model(slots@) =~= slots_model(all).drop_first());
                        menu.tree = t;
                        menu.tree_typ = ty;
                        menu.ctx = MenuCtx::Tup(
                            Box::new(PosSelect { before: Vec::new(), ctx: outer, after: slots }),
                        );
                        assert(menu.ctx@ == old(menu)@.enter(dir)->Ok_0.ctx) by {
                            assert(slots_model(Seq::<(MenuTree, MenuType)>::empty()) =~= Seq::<
                                Slot,
                            >::empty());
                        }
                    },
                    Dir1D::Backward => {
                        let (t, ty) = slots.pop().unwrap();
                        assert(slots_model(slots@) =~= slots_model(all).drop_last());
                        menu.tree = t;
                        menu.tree_typ = ty;
                        menu.ctx = MenuCtx::Tup(
                            Box::new(PosSelect { before: slots, ctx: outer, after: Vec::new() }),
                        );
                        assert(menu.ctx@ == old(menu)@.enter(dir)->Ok_0.ctx) by {
                            assert(slots_model(Seq::<(MenuTree, MenuType)>::empty()) =~= Seq::<
                                Slot,
                            >::empty());
                        }
                    },
                }
                Ok(())
            }
        },
        MenuTree::Product(arms) => {
            if arms.len() == 0 {
                assert(arms_model(arms@).len() == 0);
                menu.tree = MenuTree::Product(arms);
                Err(Halt::Message(EditError::NoSubtree))
            } else {
                let mut arms = arms;
                let ghost all = arms@;
                let outer = take_ctx(&mut menu.ctx);
                match dir {
                    Dir1D::Forward => {
                        let (label, t, ty) = arms.remove(0);
                        assert(arms_model(arms@) =~= arms_model(all).drop_first());
                        menu.tree = t;
                        menu.tree_typ = ty;
                        menu.ctx = MenuCtx::Product(
                            Box::new(
                                LabelSelect { before: Vec::new(), ctx: outer, label, after: arms },
                            ),
                        );
                        assert(menu.ctx@ == old(menu)@.enter(dir)->Ok_0.ctx) by {
                            assert(arms_model(Seq::<(Label, MenuTree, MenuType)>::empty())
                                =~= Seq::<Arm>::empty());
                        }
                    },
                    Dir1D::Backward => {
                        let (label, t, ty) = arms.pop().unwrap();
                        assert(arms_model(arms@) =~= arms_model(all).drop_last());
                        menu.tree = t;
                        menu.tree_typ = ty;
                        menu.ctx = MenuCtx::Product(
                            Box::new(
                                LabelSelect { before: arms, ctx: outer, label, after: Vec::new() },
                            ),
                        );
                        assert(menu.ctx@ == old(menu)@.enter(dir)->Ok_0.ctx) by {
                            assert(arms_model(Seq::<(Label, MenuTree, MenuType)>::empty())
                                =~= Seq::<Arm>::empty());
                        }
                    },
                }
                Ok(())
            }
        },
        MenuTree::Vec(trees, s) => {
            if trees.len() == 0 {
                assert(trees_model(trees@).len() == 0);
                menu.tree = MenuTree::Vec(trees, s);
                Err(Halt::Message(EditError::NoSubtree))
            } else {
                let mut trees = trees;
                let ghost all = trees@;
                let outer = take_ctx(&mut menu.ctx);
                match dir {
                    Dir1D::Forward => {
                        let t = trees.remove(0);
                        assert(trees_model(trees@) =~= trees_model(all).drop_first());
                        let after = pair_trees(trees, &s);
                        assert(slots_model(after@) =~= slots_of(trees_model(all), s@).drop_first());
                        menu.tree = t;
                        menu.tree_typ = s;
                        menu.ctx = MenuCtx::Vec(
                            Box::new(PosSelect { before: Vec::new(), ctx: outer, after }),
                        );
                        assert(menu.ctx@ == old(menu)@.enter(dir)->Ok_0.ctx) by {
                            assert(slots_model(Seq::<(MenuTree, MenuType)>::empty()) =~= Seq::<
                                Slot,
                            >::empty());
                        }
                    },
                    Dir1D::Backward => {
                        let t = trees.pop().unwrap();
                        assert(trees_model(trees@) =~= trees_model(all).drop_last());
                        let before = pair_trees(trees, &s);
                        assert(slots_model(before@) =~= slots_of(trees_model(all), s@).drop_last());
                        menu.tree = t;
                        menu.tree_typ = s;
                        menu.ctx = MenuCtx::Vec(
                            Box::new(PosSelect { before, ctx: outer, after: Vec::new() }),
                        );
                        assert(menu.ctx@ == old(menu)@.enter(dir)->Ok_0.ctx) by {
                            assert(slots_model(Seq::<(MenuTree, MenuType)>::empty()) =~= Seq::<
                                Slot,
                            >::empty());
                        }
                    },
                }
                Ok(())
            }
        },
        MenuTree::Option(present, inner, s) => {
            let outer = take_ctx(&mut menu.ctx);
            menu.tree = *inner;
            menu.tree_typ = s;
            menu.ctx = MenuCtx::Option(present, Box::new(outer));
            Ok(())
        },
        MenuTree::Variant(c) => {
            let LabelChoice { before, choice, after } = *c;
            assert(old(menu)@.tree->Variant_0.choice == opt_arm_model(choice));
            match choice {
                Some((label, t, ty)) => {
                    let outer = take_ctx(&mut menu.ctx);
                    menu.tree = t;
                    menu.tree_typ = ty;
                    menu.ctx = MenuCtx::Variant(
                        Box::new(LabelSelect { before, ctx: outer, label, after }),
                    );
                    Ok(())
                },
                None => {
                    menu.tree = MenuTree::Variant(
                        Box::new(LabelChoice { before, choice: None, after }),
                    );
                    Err(Halt::Message(EditError::NoChosenArm))
                },
            }
        },
        other => {
            menu.tree = other;
            Err(Halt::Message(EditError::NotImplemented))
        },
    }
}

/// The `Descend` command. A numeric leaf in focus is increased by one and
/// stays in focus, failing with `Overflow` where its machine type has no
/// larger value; any other focus is entered as `enter` says.
pub fn descend(menu: &mut MenuState, dir: Dir1D) -> (res: Res)
    ensures
        outcome(old(menu)@, old(menu)@.descend(dir), final(menu)@, res),
        old(menu)@.wf() ==> final(menu)@.wf(),
{
    proof {
        if menu@.wf() && menu@.descend(dir) is Ok {
            lemma_descend_wf(menu@, dir);
        }
    }
    match &menu.tree {
        MenuTree::Nat(n) => {
            let n = *n;
            if n < usize::MAX {
                menu.tree = MenuTree::Nat(n + 1);
                Ok(())
            } else {
                Err(Halt::Message(EditError::Overflow))
            }
        },
        MenuTree::Int(i) => {
            let i = *i;
            if i < isize::MAX {
                menu.tree = MenuTree::Int(i + 1);
                Ok(())
            } else {
                Err(Halt::Message(EditError::Overflow))
            }
        },
        _ => enter(menu, dir),
    }
}

// ---------------------------------------------------------------------------
// Sibling motion

/// The frame around the focus holds a further occupant in direction `dir`.
fn has_sibling(menu: &MenuState, dir: Dir1D) -> (r: bool)
    ensures
        r == menu@.has_sibling(dir),
{
    match &menu.ctx {
        MenuCtx::Tup(sel) => {
            assert(slots_model(sel.before@).len() == sel.before@.len());
            assert(slots_model(sel.after@).len() == sel.after@.len());
            match dir {
                Dir1D::Forward => sel.after.len() > 0,
                Dir1D::Backward => sel.before.len() > 0,
            }
        },
        MenuCtx::Vec(sel) => {
            assert(slots_model(sel.before@).len() == sel.before@.len());
            assert(slots_model(sel.after@).len() == sel.after@.len());
            match dir {
                Dir1D::Forward => sel.after.len() > 0,
                Dir1D::Backward => sel.before.len() > 0,
            }
        },
        MenuCtx::Product(sel) => {
            assert(arms_model(sel.before@).len() == sel.before@.len());
            assert(arms_model(sel.after@).len() == sel.after@.len());
            match dir {
                Dir1D::Forward => sel.after.len() > 0,
                Dir1D::Backward => sel.before.len() > 0,
            }
        },
        _ => false,
    }
}

/// Moves the focus of a positional frame one place in direction `dir`.
fn shift_pos(
    sel: PosSelect,
    tree: MenuTree,
    typ: MenuType,
    dir: Dir1D,
) -> (r: (PosSelect, MenuTree, MenuType))
    requires
        dir_side(dir, sel.before@, sel.after@).len() > 0,
    ensures
        r.0.ctx == sel.ctx,
        (r.1@, r.2@) == shift_slots(
            dir,
            slots_model(sel.before@),
            (tree@, typ@),
            slots_model(sel.after@),
        ).0,
        slots_model(r.0.before@) == shift_slots(
            dir,
            slots_model(sel.before@),
            (tree@, typ@),
            slots_model(sel.after@),
        ).1,
        slots_model(r.0.after@) == shift_slots(
            dir,
            slots_model(sel.before@),
            (tree@, typ@),
            slots_model(sel.after@),
        ).2,
{
    let PosSelect { before, ctx, after } = sel;
    let mut before = before;
    let mut after = after;
    let ghost b = before@;
    let ghost a = after@;
    match dir {
        Dir1D::Forward => {
            before.push((tree, typ));
            let (t, ty) = after.remove(0);
            assert(slots_model(before@) =~= slots_model(b).push((tree@, typ@)));
            assert(slots_model(after@) =~= slots_model(a).drop_first());
            (PosSelect { before, ctx, after }, t, ty)
        },
        Dir1D::Backward => {
            let (t, ty) = before.pop().unwrap();
            after.insert(0, (tree, typ));
            assert(slots_model(before@) =~= slots_model(b).drop_last());
            assert(slots_model(after@) =~= seq![(tree@, typ@)] + slots_model(a));
            (PosSelect { before, ctx, after }, t, ty)
        },
    }
}

/// Moves the focus of a labelled frame one place in direction `dir`.
fn shift_label(
    sel: LabelSelect,
    tree: MenuTree,
    typ: MenuType,
    dir: Dir1D,
) -> (r: (LabelSelect, MenuTree, MenuType))
    requires
        dir_side(dir, sel.before@, sel.after@).len() > 0,
    ensures
        r.0.ctx == sel.ctx,
        (r.0.label@, r.1@, r.2@) == shift_arms(
            dir,
            arms_model(sel.before@),
            (sel.label@, tree@, typ@),
            arms_model(sel.after@),
        ).0,
        arms_model(r.0.before@) == shift_arms(
            dir,
            arms_model(sel.before@),
            (sel.label@, tree@, typ@),
            arms_model(sel.after@),
        ).1,
        arms_model(r.0.after@) == shift_arms(
            dir,
            arms_model(sel.before@),
            (sel.label@, tree@, typ@),
            arms_model(sel.after@),
        ).2,
{
    let LabelSelect { before, ctx, label, after } = sel;
    let mut before = before;
    let mut after = after;
    let ghost b = before@;
    let ghost a = after@;
    match dir {
        Dir1D::Forward => {
            before.push((label, tree, typ));
            let (l, t, ty) = after.remove(0);
            assert(arms_model(before@) =~= arms_model(b).push((label@, tree@, typ@)));
            assert(arms_model(after@) =~= arms_model(a).drop_first());
            (LabelSelect { before, ctx, label: l, after }, t, ty)
        },
        Dir1D::Backward => {
            let (l, t, ty) = before.pop().unwrap();
            after.insert(0, (label, tree, typ));
            assert(arms_model(before@) =~= arms_model(b).drop_last());
            assert(arms_model(after@) =~= seq![(label@, tree@, typ@)] + arms_model(a));
            (LabelSelect { before, ctx, label: l, after }, t, ty)
        },
    }
}

/// Moves the focus to its neighbour in direction `dir` within the frame.
fn shift(menu: &mut MenuState, dir: Dir1D)
    requires
        old(menu)@.has_sibling(dir),
    ensures
        final(menu)@ == old(menu)@.shift(dir),
{
    let ctx = take_ctx(&mut menu.ctx);
    let tree = take_tree(&mut menu.tree);
    let typ = take_type(&mut menu.tree_typ);
    match ctx {
        MenuCtx::Tup(sel) => {
            assert(slots_model(sel.before@).len() == sel.before@.len());
            assert(slots_model(sel.after@).len() == sel.after@.len());
            let (sel, t, ty) = shift_pos(*sel, tree, typ, dir);
            menu.ctx = MenuCtx::Tup(Box::new(sel));
            menu.tree = t;
            menu.tree_typ = ty;
        },
        MenuCtx::Vec(sel) => {
            assert(slots_model(sel.before@).len() == sel.before@.len());
            assert(slots_model(sel.after@).len() == sel.after@.len());
            let (sel, t, ty) = shift_pos(*sel, tree, typ, dir);
            menu.ctx = MenuCtx::Vec(Box::new(sel));
            menu.tree = t;
            menu.tree_typ = ty;
        },
        MenuCtx::Product(sel) => {
            assert(arms_model(sel.before@).len() == sel.before@.len());
            assert(arms_model(sel.after@).len() == sel.after@.len());
            let (sel, t, ty) = shift_label(*sel, tree, typ, dir);
            menu.ctx = MenuCtx::Product(Box::new(sel));
            menu.tree = t;
            menu.tree_typ = ty;
        },
        other => {
            menu.ctx = other;
            menu.tree = tree;
            menu.tree_typ = typ;
        },
    }
}

/// Sibling motion in direction `dir`.
///
/// In a record, tuple or sequence frame the focus moves to its neighbour, and
/// from the last one round to the other end. In a union frame the move is
/// made one level up. At the root and in an option frame nothing moves. The
/// command never fails.
pub fn sibling(menu: &mut MenuState, dir: Dir1D) -> (res: Res)
    ensures
        outcome(old(menu)@, old(menu)@.sibling(dir), final(menu)@, res),
        old(menu)@.wf() ==> final(menu)@.wf(),
        res is Ok,
    decreases depth(old(menu)@.ctx),
{
    proof {
        if menu@.wf() && true {
            lemma_sibling_wf(menu@, dir);
        }
    }
    let tag = ctx_tag(&menu.ctx);
    match tag {
        Tag::Root | Tag::Option => Ok(()),
        Tag::Variant => {
            let up = ascend(menu);
            sibling(menu, dir)
        },
        _ => {
            if has_sibling(menu, dir) {
                shift(menu, dir);
                Ok(())
            } else {
                let up = ascend(menu);
                enter(menu, dir)
            }
        },
    }
}

pub fn next_sibling(menu: &mut MenuState) -> (res: Res)
    ensures
        outcome(old(menu)@, old(menu)@.sibling(Dir1D::Forward), final(menu)@, res),
        old(menu)@.wf() ==> final(menu)@.wf(),
        res is Ok,
{
    proof {
        if menu@.wf() && true {
            lemma_sibling_wf(menu@, Dir1D::Forward);
        }
    }
    sibling(menu, Dir1D::Forward)
}

pub fn prev_sibling(menu: &mut MenuState) -> (res: Res)
    ensures
        outcome(old(menu)@, old(menu)@.sibling(Dir1D::Backward), final(menu)@, res),
        old(menu)@.wf() ==> final(menu)@.wf(),
        res is Ok,
{
    proof {
        if menu@.wf() && true {
            lemma_sibling_wf(menu@, Dir1D::Backward);
        }
    }
    sibling(menu, Dir1D::Backward)
}

// ---------------------------------------------------------------------------
// The walk

/// Some frame of `ctx` holds a further occupant in direction `dir`.
fn can_climb(ctx: &MenuCtx, dir: Dir1D) -> (r: bool)
    ensures
        r == climbable(ctx@, dir),
    decreases ctx,
{
    match ctx {
        MenuCtx::Root(_) => false,
        MenuCtx::Tup(sel) => {
            assert(slots_model(sel.before@).len() == sel.before@.len());
            assert(slots_model(sel.after@).len() == sel.after@.len());
            let here = match dir {
                Dir1D::Forward => sel.after.len() > 0,
                Dir1D::Backward => sel.before.len() > 0,
            };
            here || can_climb(&sel.ctx, dir)
        },
        MenuCtx::Vec(sel) => {
            assert(slots_model(sel.before@).len() == sel.before@.len());
            assert(slots_model(sel.after@).len() == sel.after@.len());
            let here = match dir {
                Dir1D::Forward => sel.after.len() > 0,
                Dir1D::Backward => sel.before.len() > 0,
            };
            here || can_climb(&sel.ctx, dir)
        },
        MenuCtx::Product(sel) => {
            assert(arms_model(sel.before@).len() == sel.before@.len());
            assert(arms_model(sel.after@).len() == sel.after@.len());
            let here = match dir {
                Dir1D::Forward => sel.after.len() > 0,
                Dir1D::Backward => sel.before.len() > 0,
            };
            here || can_climb(&sel.ctx, dir)
        },
        MenuCtx::Variant(sel) => can_climb(&sel.ctx, dir),
        MenuCtx::Option(_, outer) => can_climb(outer, dir),
    }
}

/// Ascends to the nearest frame with an occupant left in direction `dir` and
/// moves the focus to it.
fn climb_up(menu: &mut MenuState, dir: Dir1D)
    requires
        climbable(old(menu)@.ctx, dir),
    ensures
        old(menu)@.climb(dir) == Ok::<Zipper, EditError>(final(menu)@),
    decreases depth(old(menu)@.ctx),
{
    if has_sibling(menu, dir) {
        shift(menu, dir);
    } else {
        let up = ascend(menu);
        climb_up(menu, dir);
    }
}

/// From a focus that cannot be entered, moves to the nearest node further on
/// in direction `dir`. Fails with `Exhausted` where no frame out to the root
/// has an occupant left.
pub fn climb(menu: &mut MenuState, dir: Dir1D) -> (res: Res)
    ensures
        outcome(old(menu)@, old(menu)@.climb(dir), final(menu)@, res),
        old(menu)@.wf() ==> final(menu)@.wf(),
{
    proof {
        if menu@.wf() && menu@.climb(dir) is Ok {
            lemma_climb_wf(menu@, dir);
        }
    }
    proof {
        lemma_climb_result(menu@, dir);
    }
    if can_climb(&menu.ctx, dir) {
        climb_up(menu, dir);
        Ok(())
    } else {
        Err(Halt::Message(EditError::Exhausted))
    }
}

/// One step of the walk in direction `dir`: into the focus where it can be
/// entered, else on to the nearest node that lies further on. Fails with
/// `Exhausted` at the end of the walk.
pub fn walk(menu: &mut MenuState, dir: Dir1D) -> (res: Res)
    ensures
        outcome(old(menu)@, old(menu)@.walk(dir), final(menu)@, res),
        old(menu)@.wf() ==> final(menu)@.wf(),
{
    proof {
        if menu@.wf() && menu@.walk(dir) is Ok {
            lemma_walk_wf(menu@, dir);
        }
    }
    match enter(menu, dir) {
        Ok(()) => Ok(()),
        Err(_) => climb(menu, dir),
    }
}

pub fn next_tree(menu: &mut MenuState) -> (res: Res)
    ensures
        outcome(old(menu)@, old(menu)@.walk(Dir1D::Forward), final(menu)@, res),
        old(menu)@.wf() ==> final(menu)@.wf(),
{
    proof {
        if menu@.wf() && menu@.walk(Dir1D::Forward) is Ok {
            lemma_walk_wf(menu@, Dir1D::Forward);
        }
    }
    walk(menu, Dir1D::Forward)
}

pub fn prev_tree(menu: &mut MenuState) -> (res: Res)
    ensures
        outcome(old(menu)@, old(menu)@.walk(Dir1D::Backward), final(menu)@, res),
        old(menu)@.wf() ==> final(menu)@.wf(),
{
    proof {
        if menu@.wf() && menu@.walk(Dir1D::Backward) is Ok {
            lemma_walk_wf(menu@, Dir1D::Backward);
        }
    }
    walk(menu, Dir1D::Backward)
}

/// Ascends until the focus is the whole tree. Never fails.
pub fn goto_root(menu: &mut MenuState) -> (res: Res)
    ensures
        res is Ok,
        final(menu)@ == old(menu)@.top(),
        old(menu)@.wf() ==> final(menu)@.wf(),
    decreases depth(old(menu)@.ctx),
{
    proof {
        if menu@.wf() && true {
            lemma_top_wf(menu@);
        }
    }
    match ctx_tag(&menu.ctx) {
        Tag::Root => Ok(()),
        _ => {
            let up = ascend(menu);
            goto_root(menu)
        },
    }
}

/// How a blank-seeking command that computes `step` must end: on the blank
/// with the schema that the blank owes, or with the failure reported and the
/// cursor as it was.
pub open spec fn sought(
    before: Zipper,
    step: Result<Zipper, EditError>,
    after: Zipper,
    res: Result<MenuType, Halt>,
) -> bool {
    match step {
        Ok(z) => after == z && (res matches Ok(t) && z.tree == Tree::Blank(t@)),
        Err(e) => after == before && (res matches Err(h) && h@ == HaltView::Message(e)),
    }
}

/// Walks in direction `dir` until the focus is a blank, the present focus
/// included, and returns the schema that the blank owes. Fails with
/// `Exhausted`, leaving the cursor where it was, if the walk ends first.
pub fn seek(menu: &mut MenuState, dir: Dir1D) -> (res: Result<MenuType, Halt>)
    ensures
        sought(old(menu)@, old(menu)@.seek(dir), final(menu)@, res),
        old(menu)@.wf() ==> final(menu)@.wf(),
{
    proof {
        if menu@.wf() && menu@.seek(dir) is Ok {
            lemma_seek_wf(menu@, dir);
        }
    }
    let saved = menu.clone();
    loop
        invariant
            saved@ == old(menu)@,
            menu@.seek(dir) == saved@.seek(dir),
            old(menu)@.wf() && saved@.seek(dir) is Ok ==> saved@.seek(dir)->Ok_0.wf(),
        decreases menu@.remaining(dir),
    {
        if let MenuTree::Blank(t) = &menu.tree {
            return Ok(t.clone());
        }
        proof {
            if menu@.walk(dir) is Ok {
                lemma_walk_gets_closer(menu@, dir);
            }
        }
        match walk(menu, dir) {
            Ok(()) => {},
            Err(h) => {
                *menu = saved;
                return Err(h);
            },
        }
    }
}

pub fn next_blank(menu: &mut MenuState) -> (res: Result<MenuType, Halt>)
    ensures
        sought(old(menu)@, old(menu)@.seek(Dir1D::Forward), final(menu)@, res),
        old(menu)@.wf() ==> final(menu)@.wf(),
{
    proof {
        if menu@.wf() && menu@.seek(Dir1D::Forward) is Ok {
            lemma_seek_wf(menu@, Dir1D::Forward);
        }
    }
    seek(menu, Dir1D::Forward)
}

pub fn prev_blank(menu: &mut MenuState) -> (res: Result<MenuType, Halt>)
    ensures
        sought(old(menu)@, old(menu)@.seek(Dir1D::Backward), final(menu)@, res),
        old(menu)@.wf() ==> final(menu)@.wf(),
{
    proof {
        if menu@.wf() && menu@.seek(Dir1D::Backward) is Ok {
            lemma_seek_wf(menu@, Dir1D::Backward);
        }
    }
    seek(menu, Dir1D::Backward)
}

// ---------------------------------------------------------------------------
// Union arms

/// The `NextVariant` (forward) and `PrevVariant` (backward) commands: another
/// arm of the union in focus becomes the chosen one, or none is. Fails with
/// `WrongTag` where the focus is no union.
pub fn cycle_variant(menu: &mut MenuState, dir: Dir1D) -> (res: Res)
    ensures
        outcome(old(menu)@, old(menu)@.cycle_variant(dir), final(menu)@, res),
        old(menu)@.wf() ==> final(menu)@.wf(),
{
    proof {
        if menu@.wf() && menu@.cycle_variant(dir) is Ok {
            lemma_cycle_wf(menu@, dir);
        }
    }
    let tree = take_tree(&mut menu.tree);
    match tree {
        MenuTree::Variant(arms) => {
            let LabelChoice { before, choice, after } = *arms;
            let mut before = before;
            let mut after = after;
            let ghost b = arms_model(before@);
            let ghost a = arms_model(after@);
            let ghost c = opt_arm_model(choice);
            assert(old(menu)@.tree == Tree::Variant(
                Box::new(Choice { before: b, choice: c, after: a }),
            ));
            assert(b.len() == before@.len() && a.len() == after@.len());
            let next = match dir {
                Dir1D::Forward => {
                    if after.len() > 0 {
                        let x = after.remove(0);
                        if let Some(ch) = choice {
                            before.push(ch);
                        }
                        assert(arms_model(before@) =~= b + opt_arm(c));
                        assert(arms_model(after@) =~= a.drop_first());
                        LabelChoice { before, choice: Some(x), after }
                    } else {
                        if let Some(ch) = choice {
                            before.push(ch);
                        }
                        assert(arms_model(before@) =~= b + opt_arm(c));
                        assert(arms_model(after@) =~= Seq::<Arm>::empty());
                        LabelChoice { before: after, choice: None, after: before }
                    }
                },
                Dir1D::Backward => {
                    if before.len() > 0 {
                        let x = before.pop().unwrap();
                        if let Some(ch) = choice {
                            after.insert(0, ch);
                        }
                        assert(arms_model(before@) =~= b.drop_last());
                        assert(arms_model(after@) =~= opt_arm(c) + a);
                        LabelChoice { before, choice: Some(x), after }
                    } else {
                        if let Some(ch) = choice {
                            after.insert(0, ch);
                        }
                        assert(arms_model(after@) =~= opt_arm(c) + a);
                        assert(arms_model(before@) =~= Seq::<Arm>::empty());
                        LabelChoice { before: after, choice: None, after: before }
                    }
                },
            };
            assert(next@ == (Choice { before: b, choice: c, after: a }).cycle(dir));
            menu.tree = MenuTree::Variant(Box::new(next));
            Ok(())
        },
        other => {
            menu.tree = other;
            Err(Halt::Message(EditError::WrongTag))
        },
    }
}

/// The `AcceptVariant` command: ascends from a union in focus that has an
/// arm chosen. Fails with `WrongTag` where the focus is no union, with
/// `NoChosenArm` where none is chosen, and with `AtRoot` at the root.
pub fn accept_variant(menu: &mut MenuState) -> (res: Res)
    ensures
        outcome(old(menu)@, old(menu)@.accept_variant(), final(menu)@, res),
        old(menu)@.wf() ==> final(menu)@.wf(),
{
    proof {
        if menu@.wf() && menu@.accept_variant() is Ok {
            lemma_ascend_wf(menu@);
        }
    }
    match &menu.tree {
        MenuTree::Variant(arms) => {
            assert(menu@.tree->Variant_0.choice == opt_arm_model(arms.choice));
            if arms.choice.is_some() {
                ascend(menu)
            } else {
                Err(Halt::Message(EditError::NoChosenArm))
            }
        },
        _ => Err(Halt::Message(EditError::WrongTag)),
    }
}

// ---------------------------------------------------------------------------
// Filling and merging

/// The canonical tree of schema `typ`, expanded `depth` levels.
pub fn auto_fill(typ: &MenuType, depth: usize) -> (tree: MenuTree)
    ensures
        tree@ == fill(typ@, depth as nat),
        conforms(tree@, typ@),
    decreases depth, 0nat,
{
    proof {
        lemma_fill_conforms(typ@, depth as nat);
    }
    match typ {
        MenuType::Prim(PrimType::Unit) => MenuTree::Unit,
        MenuType::Prim(PrimType::Null) => MenuTree::Null,
        MenuType::Prim(PrimType::Nat) => MenuTree::Nat(0),
        MenuType::Prim(PrimType::Int) => MenuTree::Int(0),
        MenuType::Prim(PrimType::Text) => MenuTree::Text(String::new()),
        MenuType::Prim(PrimType::Bool) => MenuTree::Bool(false),
        _ => {
            if depth == 0 {
                MenuTree::Blank(typ.clone())
            } else {
                match typ {
                    MenuType::Variant(labtyps) => {
                        let arms = auto_fill_fields(labtyps, depth - 1);
                        let before: Vec<(Label, MenuTree, MenuType)> = Vec::new();
                        assert(arms_model(before@) =~= Seq::<Arm>::empty());
                        let choice: Option<(Label, MenuTree, MenuType)> = None;
                        assert(opt_arm_model(choice) == None::<Arm>);
                        MenuTree::Variant(Box::new(LabelChoice { before, choice, after: arms }))
                    },
                    MenuType::Product(labtyps) => MenuTree::Product(
                        auto_fill_fields(labtyps, depth - 1),
                    ),
                    MenuType::Vec(t) => {
                        let mut trees: Vec<MenuTree> = Vec::new();
                        if depth > 1 {
                            trees.push(auto_fill(t, depth - 1));
                            assert(trees_model(trees@) =~= seq![fill(t@, (depth - 1) as nat)]);
                        } else {
                            assert(trees_model(trees@) =~= Seq::<Tree>::empty());
                        }
                        MenuTree::Vec(trees, (**t).clone())
                    },
                    MenuType::Option(t) => {
                        let tree = auto_fill(t, depth - 1);
                        MenuTree::Option(false, Box::new(tree), (**t).clone())
                    },
                    MenuType::Tup(typs) => {
                        let mut slots: Vec<(MenuTree, MenuType)> = Vec::new();
                        let mut i: usize = 0;
                        while i < typs.len()
                            invariant
                                depth > 0,
                                i <= typs.len(),
                                slots.len() == i,
                                forall|j: int|
                                    0 <= j < i ==> slots@[j].0@ == fill(
                                        typs@[j]@,
                                        (depth - 1) as nat,
                                    ) && slots@[j].1@ == typs@[j]@,
                            decreases typs.len() - i,
                        {
                            slots.push((auto_fill(&typs[i], depth - 1), typs[i].clone()));
                            i += 1;
                        }
                        assert(slots_model(slots@) =~= fill_slots(
                            types_model(typs@),
                            (depth - 1) as nat,
                        ));
                        MenuTree::Tup(slots)
                    },
                    _ => MenuTree::Blank(typ.clone()),
                }
            }
        },
    }
}

/// One arm for each labelled schema, filled `depth` levels deep.
fn auto_fill_fields(labtyps: &Vec<(Label, MenuType)>, depth: usize) -> (arms: Vec<
    (Label, MenuTree, MenuType),
>)
    ensures
        arms_model(arms@) == fill_arms(fields_model(labtyps@), depth as nat),
    decreases depth, 1nat,
{
    let mut arms: Vec<(Label, MenuTree, MenuType)> = Vec::new();
    let mut i: usize = 0;
    while i < labtyps.len()
        invariant
            i <= labtyps.len(),
            arms.len() == i,
            forall|j: int|
                0 <= j < i ==> arms@[j].0@ == labtyps@[j].0@ && arms@[j].1@ == fill(
                    labtyps@[j].1@,
                    depth as nat,
                ) && arms@[j].2@ == labtyps@[j].1@,
        decreases labtyps.len() - i,
    {
        arms.push((labtyps[i].0.clone(), auto_fill(&labtyps[i].1, depth), labtyps[i].1.clone()));
        i += 1;
    }
    assert(arms_model(arms@) =~= fill_arms(fields_model(labtyps@), depth as nat));
    arms
}

/// The two trees combined. A blank gives way to the other tree; two records
/// are merged field by field; in every other case `tree2` is taken.
///
/// Two records that meet must list the same labels and schemas.
pub fn tree_union(tree1: &MenuTree, tree2: &MenuTree) -> (tree: MenuTree)
    requires
        mergeable(tree1@, tree2@),
    ensures
        tree@ == merge(tree1@, tree2@),
    decreases tree1,
{
    match tree1 {
        MenuTree::Blank(_) => tree2.clone(),
        MenuTree::Product(fields1) => match tree2 {
            MenuTree::Blank(_) => tree1.clone(),
            MenuTree::Product(fields2) => {
                let ghost x = arms_model(fields1@);
                let ghost y = arms_model(fields2@);
                assert(x.len() == y.len()) by {
                    assert(arm_schemas(x).len() == arm_schemas(y).len());
                }
                let mut fields3: Vec<(Label, MenuTree, MenuType)> = Vec::new();
                let mut i: usize = 0;
                while i < fields1.len()
                    invariant
                        *tree1 matches MenuTree::Product(v) && v == *fields1,
                        x == arms_model(fields1@),
                        y == arms_model(fields2@),
                        x.len() == y.len(),
                        x.len() == fields1@.len(),
                        y.len() == fields2@.len(),
                        forall|k: int| 0 <= k < x.len() ==> mergeable((#[trigger] x[k]).1, y[k].1),
                        i <= fields1.len(),
                        fields3.len() == i,
                        forall|j: int|
                            0 <= j < i ==> fields3@[j].0@ == x[j].0 && fields3@[j].1@ == merge(
                                x[j].1,
                                y[j].1,
                            ) && fields3@[j].2@ == x[j].2,
                    decreases fields1.len() - i,
                {
                    assert(mergeable(x[i as int].1, y[i as int].1));
                    let t3 = tree_union(&fields1[i].1, &fields2[i].1);
                    fields3.push((fields1[i].0.clone(), t3, fields1[i].2.clone()));
                    i += 1;
                }
                assert(arms_model(fields3@) =~= merge_arms(x, y));
                MenuTree::Product(fields3)
            },
            _ => tree2.clone(),
        },
        _ => match tree2 {
            MenuTree::Blank(_) => tree1.clone(),
            _ => tree2.clone(),
        },
    }
}

// ---------------------------------------------------------------------------
// Commands

/// How the edit command `cmd` must end: the cursor is the one that the model
/// gives, and `Commit` hands the whole tree over as `Halt::Commit`; or the
/// failure is reported and the cursor is as it was.
pub open spec fn evaluated(before: Zipper, cmd: EditCommand, after: Zipper, res: Res) -> bool {
    match before.edit(cmd) {
        Ok(z) => {
            &&& after == z
            &&& if cmd == EditCommand::Commit {
                res matches Err(h) && h@ == HaltView::Commit(z.tree)
            } else {
                res is Ok
            }
        },
        Err(e) => failed(res, e) && after == before,
    }
}

/// Applies one edit command to a well-formed cursor, and leaves it well
/// formed.
pub fn state_eval_command(menu: &mut MenuState, command: &EditCommand) -> (res: Res)
    requires
        old(menu)@.wf(),
    ensures
        evaluated(old(menu)@, *command, final(menu)@, res),
        final(menu)@.wf(),
{
    proof {
        if menu@.edit(*command) is Ok {
            lemma_edit_wf(menu@, *command);
        }
    }
    match command {
        EditCommand::Commit => {
            let up = goto_root(menu);
            Err(Halt::Commit(menu.tree.clone()))
        },
        EditCommand::GotoRoot => goto_root(menu),
        EditCommand::AutoFill => {
            let tree = auto_fill(&menu.tree_typ, 1);
            proof {
                lemma_fill_conforms(menu@.typ, 1);
                lemma_merge_conforms(menu@.tree, tree@, menu@.typ);
            }
            menu.tree = tree_union(&menu.tree, &tree);
            Ok(())
        },
        EditCommand::Clear => {
            menu.tree = MenuTree::Blank(menu.tree_typ.clone());
            Ok(())
        },
        EditCommand::NextTree => next_tree(menu),
        EditCommand::PrevTree => prev_tree(menu),
        EditCommand::Ascend => ascend(menu),
        EditCommand::Descend => descend(menu, Dir1D::Forward),
        EditCommand::NextSibling => next_sibling(menu),
        EditCommand::PrevSibling => prev_sibling(menu),
        EditCommand::NextVariant => cycle_variant(menu, Dir1D::Forward),
        EditCommand::PrevVariant => cycle_variant(menu, Dir1D::Backward),
        EditCommand::AcceptVariant => accept_variant(menu),
        EditCommand::NextBlank => match next_blank(menu) {
            Ok(_) => Ok(()),
            Err(h) => Err(h),
        },
        EditCommand::PrevBlank => match prev_blank(menu) {
            Ok(_) => Ok(()),
            Err(h) => Err(h),
        },
        EditCommand::VecInsertBlank | EditCommand::VecInsertAuto => {
            match assert_tree_tag(&menu.tree, &Tag::Vec) {
                Ok(()) => Err(Halt::Message(EditError::NotImplemented)),
                Err(h) => Err(h),
            }
        },
    }
}

/// How a command to the editor must end: with the editor that the model
/// gives, and a result that tells success, failure or the committed tree.
pub open spec fn ran(before: EditorView, cmd: CommandView, after: EditorView, res: Res) -> bool {
    &&& after == before.eval(cmd)
    &&& match before.step(cmd) {
        Ok(z) => if cmd == CommandView::Edit(EditCommand::Commit) {
            res matches Err(h) && h@ == HaltView::Commit(z.tree)
        } else {
            res is Ok
        },
        Err(e) => failed(res, e),
    }
}

/// Gives one command to the editor. The command is added to the history
/// whatever comes of it. `Init` sets the cursor at the root of the given tree
/// and always succeeds; an edit is applied to the cursor, and fails with
/// `NotInitialized` where there is none; the commands that do not depend on
/// the cursor are not implemented and fail with `NotImplemented`.
pub fn editor_eval(menu: &mut Editor, command: &Command) -> (res: Res)
    requires
        old(menu)@.wf(),
        command@.wf(),
    ensures
        ran(old(menu)@, command@, final(menu)@, res),
        final(menu)@.wf(),
{
    let ghost h0 = menu.history@;
    menu.history.push(command.clone());
    assert(commands_model(menu.history@) =~= commands_model(h0).push(command@));
    match command {
        Command::Init(InitCommand::Default(default_choice, typ)) => {
            menu.state = Some(
                MenuState {
                    root_typ: std::rc::Rc::new(typ.clone()),
                    ctx: MenuCtx::Root(typ.clone()),
                    tree: default_choice.clone(),
                    tree_typ: typ.clone(),
                },
            );
            Ok(())
        },
        Command::Edit(c) => {
            match menu.state.take() {
                None => Err(Halt::Message(EditError::NotInitialized)),
                Some(st) => {
                    let mut st = st;
                    let res = state_eval_command(&mut st, c);
                    menu.state = Some(st);
                    res
                },
            }
        },
        Command::Auto(_) => Err(Halt::Message(EditError::NotImplemented)),
    }
}

} // verus!
