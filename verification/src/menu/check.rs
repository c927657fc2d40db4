//! Questions about trees and cursors that a caller may want answered before
//! handing them to the editor.

use crate::menu::equal::{same_fields, same_types};
use crate::menu::model::{
    arm_schemas, arms_conform, arms_no_blank, conforms, ctx_ok, mergeable, no_blank, shape,
    slot_schemas, slots_conform, slots_no_blank, Arm, Schema, Slot, Tree,
};
use crate::menu::{
    arms_model, fields_model, opt_arm_model, slots_model, trees_model, types_model, Command,
    Editor, InitCommand, Label, MenuCtx, MenuState, MenuTree, MenuType,
};
use vstd::prelude::*;

verus! {

/// Whether every arm's subtree conforms to the schema stored with it.
pub fn arms_are_typed(arms: &Vec<(Label, MenuTree, MenuType)>) -> (r: bool)
    ensures
        r == arms_conform(arms_model(arms@)),
    decreases arms,
{
    let mut i: usize = 0;
    while i < arms.len()
        invariant
            i <= arms.len(),
            forall|j: int| 0 <= j < i ==> conforms(arms@[j].1@, arms@[j].2@),
        decreases arms.len() - i,
    {
        if !tree_conforms(&arms[i].1, &arms[i].2) {
            assert(!conforms(arms_model(arms@)[i as int].1, arms_model(arms@)[i as int].2));
            return false;
        }
        i += 1;
    }
    assert forall|j: int| 0 <= j < arms_model(arms@).len() implies conforms(
        (#[trigger] arms_model(arms@)[j]).1,
        arms_model(arms@)[j].2,
    ) by {
        assert(conforms(arms@[j].1@, arms@[j].2@));
    }
    true
}

/// Whether every slot's subtree conforms to the schema stored with it.
pub fn slots_are_typed(slots: &Vec<(MenuTree, MenuType)>) -> (r: bool)
    ensures
        r == slots_conform(slots_model(slots@)),
    decreases slots,
{
    let mut i: usize = 0;
    while i < slots.len()
        invariant
            i <= slots.len(),
            forall|j: int| 0 <= j < i ==> conforms(slots@[j].0@, slots@[j].1@),
        decreases slots.len() - i,
    {
        if !tree_conforms(&slots[i].0, &slots[i].1) {
            assert(!conforms(slots_model(slots@)[i as int].0, slots_model(slots@)[i as int].1));
            return false;
        }
        i += 1;
    }
    assert forall|j: int| 0 <= j < slots_model(slots@).len() implies conforms(
        (#[trigger] slots_model(slots@)[j]).0,
        slots_model(slots@)[j].1,
    ) by {
        assert(conforms(slots@[j].0@, slots@[j].1@));
    }
    true
}

/// The label and schema of each arm of `arms`, copied to the end of `out`.
fn push_arm_types(out: &mut Vec<(Label, MenuType)>, arms: &Vec<(Label, MenuTree, MenuType)>)
    ensures
        fields_model(final(out)@) == fields_model(old(out)@) + arm_schemas(arms_model(arms@)),
{
    let ghost start = out@;
    let mut i: usize = 0;
    while i < arms.len()
        invariant
            i <= arms.len(),
            out@.len() == start.len() + i,
            forall|j: int| 0 <= j < start.len() ==> out@[j] == start[j],
            forall|j: int|
                0 <= j < i ==> out@[start.len() + j].0@ == arms@[j].0@ && out@[start.len() + j].1@
                    == arms@[j].2@,
        decreases arms.len() - i,
    {
        out.push((arms[i].0.clone(), arms[i].2.clone()));
        i += 1;
    }
    assert(fields_model(out@) =~= fields_model(start) + arm_schemas(arms_model(arms@)));
}

/// The schema of each slot of `slots`, copied to the end of `out`.
fn push_slot_types(out: &mut Vec<MenuType>, slots: &Vec<(MenuTree, MenuType)>)
    ensures
        types_model(final(out)@) == types_model(old(out)@) + slot_schemas(slots_model(slots@)),
{
    let ghost start = out@;
    let mut i: usize = 0;
    while i < slots.len()
        invariant
            i <= slots.len(),
            out@.len() == start.len() + i,
            forall|j: int| 0 <= j < start.len() ==> out@[j] == start[j],
            forall|j: int| 0 <= j < i ==> out@[start.len() + j]@ == slots@[j].1@,
        decreases slots.len() - i,
    {
        out.push(slots[i].1.clone());
        i += 1;
    }
    assert(types_model(out@) =~= types_model(start) + slot_schemas(slots_model(slots@)));
}

/// The schema that the top node of `tree` declares.
pub fn shape_of(tree: &MenuTree) -> (typ: MenuType)
    ensures
        typ@ == shape(tree@),
{
    match tree {
        MenuTree::Product(arms) => {
            let mut fields: Vec<(Label, MenuType)> = Vec::new();
            push_arm_types(&mut fields, arms);
            assert(fields_model(fields@) =~= arm_schemas(arms_model(arms@)));
            MenuType::Product(fields)
        },
        MenuTree::Variant(c) => {
            let mut fields: Vec<(Label, MenuType)> = Vec::new();
            push_arm_types(&mut fields, &c.before);
            let ghost f0 = fields@;
            match &c.choice {
                Some(a) => {
                    fields.push((a.0.clone(), a.2.clone()));
                    assert(fields_model(fields@) =~= fields_model(f0).push((a.0@, a.2@)));
                },
                None => {},
            }
            push_arm_types(&mut fields, &c.after);
            assert(opt_arm_model(c.choice) == tree@->Variant_0.choice);
            assert(fields_model(fields@) =~= arm_schemas(tree@->Variant_0.arms()));
            MenuType::Variant(fields)
        },
        MenuTree::Option(_, _, s) => MenuType::Option(Box::new(s.clone())),
        MenuTree::Vec(_, s) => MenuType::Vec(Box::new(s.clone())),
        MenuTree::Tup(slots) => {
            let mut types: Vec<MenuType> = Vec::new();
            push_slot_types(&mut types, slots);
            assert(types_model(types@) =~= slot_schemas(slots_model(slots@)));
            MenuType::Tup(types)
        },
        MenuTree::Blank(s) => s.clone(),
        MenuTree::Nat(_) => MenuType::Prim(crate::menu::model::PrimType::Nat),
        MenuTree::Int(_) => MenuType::Prim(crate::menu::model::PrimType::Int),
        MenuTree::Text(_) => MenuType::Prim(crate::menu::model::PrimType::Text),
        MenuTree::Bool(_) => MenuType::Prim(crate::menu::model::PrimType::Bool),
        MenuTree::Unit => MenuType::Prim(crate::menu::model::PrimType::Unit),
        MenuTree::Null => MenuType::Prim(crate::menu::model::PrimType::Null),
    }
}

/// Whether every tree conforms to `typ`.
pub fn trees_are_typed(trees: &Vec<MenuTree>, typ: &MenuType) -> (r: bool)
    ensures
        r ==> forall|i: int|
            0 <= i < trees_model(trees@).len() ==> conforms(#[trigger] trees_model(trees@)[i], typ@),
        !r ==> exists|i: int|
            0 <= i < trees_model(trees@).len() && !conforms(#[trigger] trees_model(trees@)[i], typ@),
    decreases trees,
{
    let mut i: usize = 0;
    while i < trees.len()
        invariant
            i <= trees.len(),
            forall|j: int| 0 <= j < i ==> conforms(trees@[j]@, typ@),
        decreases trees.len() - i,
    {
        if !tree_conforms(&trees[i], typ) {
            assert(!conforms(trees_model(trees@)[i as int], typ@));
            return false;
        }
        i += 1;
    }
    assert forall|j: int| 0 <= j < trees_model(trees@).len() implies conforms(
        #[trigger] trees_model(trees@)[j],
        typ@,
    ) by {
        assert(conforms(trees@[j]@, typ@));
    }
    true
}

/// Whether `tree` conforms to `typ`: its top node declares `typ`, and every
/// subtree conforms to the schema stored beside it.
pub fn tree_conforms(tree: &MenuTree, typ: &MenuType) -> (r: bool)
    ensures
        r == conforms(tree@, typ@),
    decreases tree,
{
    if !shape_of(tree).same(typ) {
        return false;
    }
    match tree {
        MenuTree::Product(arms) => arms_are_typed(arms),
        MenuTree::Variant(c) => {
            assert(opt_arm_model(c.choice) == tree@->Variant_0.choice);
            assert(arms_model(c.before@) == tree@->Variant_0.before);
            assert(arms_model(c.after@) == tree@->Variant_0.after);
            let chosen = match &c.choice {
                Some(a) => tree_conforms(&a.1, &a.2),
                None => true,
            };
            let r = chosen && arms_are_typed(&c.before) && arms_are_typed(&c.after);
            assert(r == conforms(tree@, typ@));
            r
        },
        MenuTree::Option(_, inner, s) => tree_conforms(inner, s),
        MenuTree::Vec(trees, s) => {
            let r = trees_are_typed(trees, s);
            proof {
                let ts = trees_model(trees@);
                assert(tree@->Vec_0 == ts);
                if conforms(tree@, typ@) {
                    assert(forall|i: int| 0 <= i < ts.len() ==> conforms(#[trigger] ts[i], s@));
                }
            }
            r
        },
        MenuTree::Tup(slots) => slots_are_typed(slots),
        _ => true,
    }
}

/// Whether the context is a sound surrounding for a hole of schema `hole`
/// in a tree of schema `root`.
pub fn ctx_conforms(ctx: &MenuCtx, hole: &MenuType, root: &MenuType) -> (r: bool)
    ensures
        r == ctx_ok(ctx@, hole@, root@),
    decreases ctx,
{
    match ctx {
        MenuCtx::Root(s) => s.same(root) && hole.same(root),
        MenuCtx::Tup(sel) => {
            if !slots_are_typed(&sel.before) || !slots_are_typed(&sel.after) {
                return false;
            }
            let mut types: Vec<MenuType> = Vec::new();
            push_slot_types(&mut types, &sel.before);
            let ghost t0 = types@;
            types.push(hole.clone());
            assert(types_model(types@) =~= types_model(t0).push(hole@));
            push_slot_types(&mut types, &sel.after);
            let outer = MenuType::Tup(types);
            assert(outer@ == Schema::Tup(
                slot_schemas(
                    slots_model(sel.before@).push((Tree::Null, hole@)) + slots_model(sel.after@),
                ),
            )) by {
                assert(types_model(types@) =~= slot_schemas(
                    slots_model(sel.before@).push((Tree::Null, hole@)) + slots_model(sel.after@),
                ));
            }
            ctx_conforms(&sel.ctx, &outer, root)
        },
        MenuCtx::Product(sel) => {
            if !arms_are_typed(&sel.before) || !arms_are_typed(&sel.after) {
                return false;
            }
            let mut fields: Vec<(Label, MenuType)> = Vec::new();
            push_arm_types(&mut fields, &sel.before);
            let ghost f0 = fields@;
            fields.push((sel.label.clone(), hole.clone()));
            assert(fields_model(fields@) =~= fields_model(f0).push((sel.label@, hole@)));
            push_arm_types(&mut fields, &sel.after);
            let outer = MenuType::Product(fields);
            assert(outer@ == Schema::Product(
                arm_schemas(
                    arms_model(sel.before@).push((sel.label@, Tree::Null, hole@)) + arms_model(
                        sel.after@,
                    ),
                ),
            )) by {
                assert(fields_model(fields@) =~= arm_schemas(
                    arms_model(sel.before@).push((sel.label@, Tree::Null, hole@)) + arms_model(
                        sel.after@,
                    ),
                ));
            }
            ctx_conforms(&sel.ctx, &outer, root)
        },
        MenuCtx::Variant(sel) => {
            if !arms_are_typed(&sel.before) || !arms_are_typed(&sel.after) {
                return false;
            }
            let mut fields: Vec<(Label, MenuType)> = Vec::new();
            push_arm_types(&mut fields, &sel.before);
            let ghost f0 = fields@;
            fields.push((sel.label.clone(), hole.clone()));
            assert(fields_model(fields@) =~= fields_model(f0).push((sel.label@, hole@)));
            push_arm_types(&mut fields, &sel.after);
            let outer = MenuType::Variant(fields);
            assert(outer@ == Schema::Variant(
                arm_schemas(
                    arms_model(sel.before@).push((sel.label@, Tree::Null, hole@)) + arms_model(
                        sel.after@,
                    ),
                ),
            )) by {
                assert(fields_model(fields@) =~= arm_schemas(
                    arms_model(sel.before@).push((sel.label@, Tree::Null, hole@)) + arms_model(
                        sel.after@,
                    ),
                ));
            }
            ctx_conforms(&sel.ctx, &outer, root)
        },
        MenuCtx::Option(_, outer_ctx) => {
            let outer = MenuType::Option(Box::new(hole.clone()));
            ctx_conforms(outer_ctx, &outer, root)
        },
        MenuCtx::Vec(sel) => {
            if !slots_are_typed(&sel.before) || !slots_are_typed(&sel.after) {
                return false;
            }
            if !all_of_type(&sel.before, hole) || !all_of_type(&sel.after, hole) {
                return false;
            }
            let outer = MenuType::Vec(Box::new(hole.clone()));
            ctx_conforms(&sel.ctx, &outer, root)
        },
    }
}

/// Whether every slot stores the schema `typ`.
fn all_of_type(slots: &Vec<(MenuTree, MenuType)>, typ: &MenuType) -> (r: bool)
    ensures
        r ==> forall|i: int|
            0 <= i < slots_model(slots@).len() ==> (#[trigger] slots_model(slots@)[i]).1 == typ@,
        !r ==> exists|i: int|
            0 <= i < slots_model(slots@).len() && (#[trigger] slots_model(slots@)[i]).1 != typ@,
{
    let mut i: usize = 0;
    while i < slots.len()
        invariant
            i <= slots.len(),
            forall|j: int| 0 <= j < i ==> slots@[j].1@ == typ@,
        decreases slots.len() - i,
    {
        if !slots[i].1.same(typ) {
            assert(slots_model(slots@)[i as int].1 != typ@);
            return false;
        }
        i += 1;
    }
    assert forall|j: int| 0 <= j < slots_model(slots@).len() implies (#[trigger] slots_model(
        slots@,
    )[j]).1 == typ@ by {
        assert(slots@[j].1@ == typ@);
    }
    true
}

/// Whether the cursor is well formed: the focus conforms to its schema, and
/// the context rebuilds a tree of the root schema around it.
pub fn state_is_wf(menu: &MenuState) -> (r: bool)
    ensures
        r == menu@.wf(),
{
    tree_conforms(&menu.tree, &menu.tree_typ) && ctx_conforms(
        &menu.ctx,
        &menu.tree_typ,
        &menu.root_typ,
    )
}

/// Whether no arm holds a blank.
pub fn arms_are_complete(arms: &Vec<(Label, MenuTree, MenuType)>) -> (r: bool)
    ensures
        r == arms_no_blank(arms_model(arms@)),
    decreases arms,
{
    let mut i: usize = 0;
    while i < arms.len()
        invariant
            i <= arms.len(),
            forall|j: int| 0 <= j < i ==> no_blank(arms@[j].1@),
        decreases arms.len() - i,
    {
        if !is_complete(&arms[i].1) {
            assert(!no_blank(arms_model(arms@)[i as int].1));
            return false;
        }
        i += 1;
    }
    assert forall|j: int| 0 <= j < arms_model(arms@).len() implies no_blank(
        (#[trigger] arms_model(arms@)[j]).1,
    ) by {
        assert(no_blank(arms@[j].1@));
    }
    true
}

/// Whether no slot holds a blank.
pub fn slots_are_complete(slots: &Vec<(MenuTree, MenuType)>) -> (r: bool)
    ensures
        r == slots_no_blank(slots_model(slots@)),
    decreases slots,
{
    let mut i: usize = 0;
    while i < slots.len()
        invariant
            i <= slots.len(),
            forall|j: int| 0 <= j < i ==> no_blank(slots@[j].0@),
        decreases slots.len() - i,
    {
        if !is_complete(&slots[i].0) {
            assert(!no_blank(slots_model(slots@)[i as int].0));
            return false;
        }
        i += 1;
    }
    assert forall|j: int| 0 <= j < slots_model(slots@).len() implies no_blank(
        (#[trigger] slots_model(slots@)[j]).0,
    ) by {
        assert(no_blank(slots@[j].0@));
    }
    true
}

/// Whether no tree holds a blank.
pub fn trees_are_complete(trees: &Vec<MenuTree>) -> (r: bool)
    ensures
        r ==> forall|i: int|
            0 <= i < trees_model(trees@).len() ==> no_blank(#[trigger] trees_model(trees@)[i]),
        !r ==> exists|i: int|
            0 <= i < trees_model(trees@).len() && !no_blank(#[trigger] trees_model(trees@)[i]),
    decreases trees,
{
    let mut i: usize = 0;
    while i < trees.len()
        invariant
            i <= trees.len(),
            forall|j: int| 0 <= j < i ==> no_blank(trees@[j]@),
        decreases trees.len() - i,
    {
        if !is_complete(&trees[i]) {
            assert(!no_blank(trees_model(trees@)[i as int]));
            return false;
        }
        i += 1;
    }
    assert forall|j: int| 0 <= j < trees_model(trees@).len() implies no_blank(
        #[trigger] trees_model(trees@)[j],
    ) by {
        assert(no_blank(trees@[j]@));
    }
    true
}

/// Whether `tree` holds no blank anywhere, the arms of a union that are not
/// chosen included.
pub fn is_complete(tree: &MenuTree) -> (r: bool)
    ensures
        r == no_blank(tree@),
    decreases tree,
{
    match tree {
        MenuTree::Blank(_) => false,
        MenuTree::Product(arms) => {
            assert(tree@->Product_0 == arms_model(arms@));
            arms_are_complete(arms)
        },
        MenuTree::Variant(c) => {
            assert(opt_arm_model(c.choice) == tree@->Variant_0.choice);
            assert(arms_model(c.before@) == tree@->Variant_0.before);
            assert(arms_model(c.after@) == tree@->Variant_0.after);
            let chosen = match &c.choice {
                Some(a) => is_complete(&a.1),
                None => true,
            };
            let r = chosen && arms_are_complete(&c.before) && arms_are_complete(&c.after);
            assert(r == no_blank(tree@));
            r
        },
        MenuTree::Option(_, inner, _) => is_complete(inner),
        MenuTree::Vec(trees, _) => {
            let r = trees_are_complete(trees);
            proof {
                let ts = trees_model(trees@);
                assert(tree@->Vec_0 == ts);
                if no_blank(tree@) {
                    assert(forall|i: int| 0 <= i < ts.len() ==> no_blank(#[trigger] ts[i]));
                }
            }
            r
        },
        MenuTree::Tup(slots) => {
            assert(tree@->Tup_0 == slots_model(slots@));
            slots_are_complete(slots)
        },
        _ => true,
    }
}

impl Editor {
    /// Whether the cursor, where there is one, is well formed.
    pub fn is_wf(&self) -> (r: bool)
        ensures
            r == self@.wf(),
    {
        match &self.state {
            Some(st) => state_is_wf(st),
            None => true,
        }
    }
}

impl Command {
    /// Whether the command is sound: the tree of an `Init` conforms to its
    /// schema.
    pub fn is_wf(&self) -> (r: bool)
        ensures
            r == self@.wf(),
    {
        match self {
            Command::Init(InitCommand::Default(tree, typ)) => tree_conforms(tree, typ),
            _ => true,
        }
    }
}

/// Whether the two trees can be merged: wherever a record meets a record,
/// both list the same labels and schemas.
pub fn are_mergeable(tree1: &MenuTree, tree2: &MenuTree) -> (r: bool)
    ensures
        r == mergeable(tree1@, tree2@),
    decreases tree1,
{
    match tree1 {
        MenuTree::Product(fields1) => match tree2 {
            MenuTree::Product(fields2) => {
                let ghost x = arms_model(fields1@);
                let ghost y = arms_model(fields2@);
                assert(tree1@->Product_0 == x);
                assert(tree2@->Product_0 == y);
                if fields1.len() != fields2.len() {
                    assert(arm_schemas(x).len() != arm_schemas(y).len());
                    return false;
                }
                let mut i: usize = 0;
                while i < fields1.len()
                    invariant
                        *tree1 matches MenuTree::Product(v) && v == *fields1,
                        tree1@ is Product && tree1@->Product_0 == x,
                        tree2@ is Product && tree2@->Product_0 == y,
                        x == arms_model(fields1@),
                        y == arms_model(fields2@),
                        x.len() == fields1@.len(),
                        y.len() == fields2@.len(),
                        x.len() == y.len(),
                        i <= fields1.len(),
                        forall|k: int|
                            0 <= k < i ==> arm_schemas(x)[k] == arm_schemas(y)[k] && mergeable(
                                (#[trigger] x[k]).1,
                                y[k].1,
                            ),
                    decreases fields1.len() - i,
                {
                    if !fields1[i].0.same(&fields2[i].0) || !fields1[i].2.same(&fields2[i].2) {
                        assert(arm_schemas(x)[i as int] != arm_schemas(y)[i as int]);
                        return false;
                    }
                    if !are_mergeable(&fields1[i].1, &fields2[i].1) {
                        assert(!mergeable(x[i as int].1, y[i as int].1));
                        return false;
                    }
                    i += 1;
                }
                assert(arm_schemas(x) =~= arm_schemas(y));
                true
            },
            _ => true,
        },
        _ => true,
    }
}

} // verus!
