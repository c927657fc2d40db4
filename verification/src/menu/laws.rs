//! Laws of the structural editor, proved of its model.

use crate::menu::model::{
    arm_schemas, arms_no_blank, conforms, ctx_no_blank, depth, fill, fill_arms, merge, opt_arm, no_blank, shape,
    shift_arms, shift_slots, slot_schemas, slot_trees, slots_no_blank, slots_of, Arm, Choice,
    CommandView, Context, EditCommand, EditError, EditorView, Schema, Slot, Tree, Zipper,
};
use crate::menu::model::{
    arm_spans, climbable, ctx_remaining, dir_side, slot_spans, span, total, tree_spans,
};
use crate::menu::proofs::{
    lemma_climb_gets_closer, lemma_climb_result, lemma_edit_wf, lemma_enter_gets_closer,
    lemma_fill_conforms, lemma_walk_gets_closer,
};
use crate::types::lang::{Dir1D, NameView};
use vstd::prelude::*;

verus! {

/// Entering the focus and ascending again gives back the cursor one started
/// from, exactly: same focus, same schema, same context.
pub proof fn law_enter_then_ascend(z: Zipper, dir: Dir1D)
    requires
        z.wf(),
        z.enter(dir) is Ok,
    ensures
        z.enter(dir)->Ok_0.ascend() == Ok::<Zipper, EditError>(z),
{
    let z2 = z.enter(dir)->Ok_0;
    let z3 = z2.ascend()->Ok_0;
    match z.tree {
        Tree::Tup(slots) => {
            match dir {
                Dir1D::Forward => {
                    assert(Seq::<Slot>::empty().push(slots[0]) + slots.drop_first() =~= slots);
                },
                Dir1D::Backward => {
                    assert(slots.drop_last().push(slots.last()) + Seq::<Slot>::empty() =~= slots);
                },
            }
        },
        Tree::Product(arms) => {
            match dir {
                Dir1D::Forward => {
                    assert(Seq::<Arm>::empty().push(arms[0]) + arms.drop_first() =~= arms);
                },
                Dir1D::Backward => {
                    assert(arms.drop_last().push(arms.last()) + Seq::<Arm>::empty() =~= arms);
                },
            }
        },
        Tree::Vec(ts, s) => {
            let slots = slots_of(ts, s);
            match dir {
                Dir1D::Forward => {
                    assert(slot_trees(Seq::<Slot>::empty()).push(slots[0].0) + slot_trees(
                        slots.drop_first(),
                    ) =~= ts);
                },
                Dir1D::Backward => {
                    assert(slot_trees(slots.drop_last()).push(slots.last().0) + slot_trees(
                        Seq::<Slot>::empty(),
                    ) =~= ts);
                },
            }
        },
        _ => {},
    }
}

/// The `Descend` command followed by `Ascend` gives back the cursor one
/// started from, wherever the focus is no numeric leaf. (On a numeric leaf
/// `Descend` changes the number and does not move.)
pub proof fn law_descend_then_ascend(z: Zipper, dir: Dir1D)
    requires
        z.wf(),
        z.descend(dir) is Ok,
        !(z.tree is Nat),
        !(z.tree is Int),
    ensures
        z.descend(dir)->Ok_0.ascend() == Ok::<Zipper, EditError>(z),
{
    law_enter_then_ascend(z, dir);
}

/// Ascending and entering again gives back the cursor one started from,
/// where the focus is the occupant that entering picks: the first of its
/// frame going forward, the last going backward.
pub proof fn law_ascend_then_enter(z: Zipper, dir: Dir1D)
    requires
        z.wf(),
        z.ascend() is Ok,
        !z.has_sibling(
            match dir {
                Dir1D::Forward => Dir1D::Backward,
                Dir1D::Backward => Dir1D::Forward,
            },
        ),
    ensures
        z.ascend()->Ok_0.enter(dir) == Ok::<Zipper, EditError>(z),
{
    let z2 = z.ascend()->Ok_0;
    let z3 = z2.enter(dir)->Ok_0;
    match z.ctx {
        Context::Tup { before, outer, after } => {
            let slots = before.push((z.tree, z.typ)) + after;
            match dir {
                Dir1D::Forward => {
                    assert(before =~= Seq::<Slot>::empty());
                    assert(slots.drop_first() =~= after);
                },
                Dir1D::Backward => {
                    assert(after =~= Seq::<Slot>::empty());
                    assert(slots.drop_last() =~= before);
                },
            }
        },
        Context::Product { before, outer, label, after } => {
            let arms = before.push((label, z.tree, z.typ)) + after;
            match dir {
                Dir1D::Forward => {
                    assert(before =~= Seq::<Arm>::empty());
                    assert(arms.drop_first() =~= after);
                },
                Dir1D::Backward => {
                    assert(after =~= Seq::<Arm>::empty());
                    assert(arms.drop_last() =~= before);
                },
            }
        },
        Context::Vec { before, outer, after } => {
            let ts = slot_trees(before).push(z.tree) + slot_trees(after);
            let slots = slots_of(ts, z.typ);
            match dir {
                Dir1D::Forward => {
                    assert(before =~= Seq::<Slot>::empty());
                    assert(slots.drop_first() =~= after);
                },
                Dir1D::Backward => {
                    assert(after =~= Seq::<Slot>::empty());
                    assert(slots.drop_last() =~= before);
                },
            }
        },
        _ => {},
    }
}

/// Every command that succeeds on a well-formed cursor leaves a well-formed
/// cursor: the focus conforms to its schema, and the context rebuilds a tree
/// of the root schema.
pub proof fn law_edit_preserves_types(z: Zipper, cmd: EditCommand)
    requires
        z.wf(),
    ensures
        z.edit(cmd) matches Ok(z2) ==> z2.wf() && z2.root == z.root,
{
    if z.edit(cmd) is Ok {
        lemma_edit_wf(z, cmd);
        lemma_edit_keeps_root(z, cmd);
    }
}

/// A well-formed editor stays well formed under every sound command.
pub proof fn law_eval_preserves_types(e: EditorView, cmd: CommandView)
    requires
        e.wf(),
        cmd.wf(),
    ensures
        e.eval(cmd).wf(),
{
    match cmd {
        CommandView::Edit(c) => {
            if e.state is Some {
                law_edit_preserves_types(e.state->Some_0, c);
            }
        },
        _ => {},
    }
}

/// Whatever sound commands a fresh editor is given, in whatever order, its
/// cursor is well formed afterwards, and all of them are in its history.
pub proof fn law_reachable_states_are_typed(cmds: Seq<CommandView>)
    requires
        forall|i: int| 0 <= i < cmds.len() ==> (#[trigger] cmds[i]).wf(),
    ensures
        EditorView::fresh().run(cmds).wf(),
        EditorView::fresh().run(cmds).history == cmds,
    decreases cmds.len(),
{
    if cmds.len() > 0 {
        law_reachable_states_are_typed(cmds.drop_last());
        law_eval_preserves_types(EditorView::fresh().run(cmds.drop_last()), cmds.last());
        assert(cmds.drop_last().push(cmds.last()) =~= cmds);
    }
}

/// The tree that `Commit` hands over conforms to the root schema.
pub proof fn law_commit_is_typed(z: Zipper)
    requires
        z.wf(),
    ensures
        z.edit(EditCommand::Commit) matches Ok(z2) && conforms(z2.tree, z.root),
{
    crate::menu::proofs::lemma_top_wf(z);
}

/// Filling a union schema at least one level deep gives a union with one
/// arm for each arm of the schema, in order, all of them in `after`, and none
/// chosen.
pub proof fn law_fill_union(fs: Seq<(NameView, Schema)>, depth: nat)
    requires
        depth >= 1,
    ensures
        fill(Schema::Variant(fs), depth) matches Tree::Variant(c) && c.choice is None
            && c.before.len() == 0 && c.after.len() == fs.len() && arm_schemas(c.arms()) == fs,
{
    let arms = fill_arms(fs, (depth - 1) as nat);
    let c = Choice { before: Seq::empty(), choice: None, after: arms };
    assert(arms.len() == fs.len());
    assert(fill(Schema::Variant(fs), depth) == Tree::Variant(Box::new(c)));
    assert(arm_schemas(c.arms()) =~= fs);
}

/// The canonical tree of a schema conforms to it, at every depth.
pub proof fn law_fill_conforms(s: Schema, depth: nat)
    ensures
        conforms(fill(s, depth), s),
{
    lemma_fill_conforms(s, depth);
}

/// A blank is the identity of merging, on either side.
pub proof fn law_merge_blank(t: Tree, s: Schema)
    requires
        conforms(t, s),
    ensures
        merge(Tree::Blank(s), t) == t,
        merge(t, Tree::Blank(s)) == t,
{
}

/// No edit command changes the root schema.
pub proof fn lemma_edit_keeps_root(z: Zipper, cmd: EditCommand)
    requires
        z.edit(cmd) is Ok,
    ensures
        z.edit(cmd)->Ok_0.root == z.root,
{
    match cmd {
        EditCommand::Commit => lemma_top_keeps_root(z),
        EditCommand::GotoRoot => lemma_top_keeps_root(z),
        EditCommand::NextTree => lemma_walk_keeps_root(z, Dir1D::Forward),
        EditCommand::PrevTree => lemma_walk_keeps_root(z, Dir1D::Backward),
        EditCommand::NextSibling => lemma_sibling_keeps_root(z, Dir1D::Forward),
        EditCommand::PrevSibling => lemma_sibling_keeps_root(z, Dir1D::Backward),
        EditCommand::NextBlank => lemma_seek_keeps_root(z, Dir1D::Forward),
        EditCommand::PrevBlank => lemma_seek_keeps_root(z, Dir1D::Backward),
        _ => {},
    }
}

proof fn lemma_top_keeps_root(z: Zipper)
    ensures
        z.top().root == z.root,
    decreases depth(z.ctx),
{
    match z.ctx {
        Context::Root(_) => {},
        _ => lemma_top_keeps_root(z.ascend().unwrap()),
    }
}

proof fn lemma_climb_keeps_root(z: Zipper, dir: Dir1D)
    requires
        z.climb(dir) is Ok,
    ensures
        z.climb(dir)->Ok_0.root == z.root,
    decreases depth(z.ctx),
{
    match z.ctx {
        Context::Root(_) => {},
        _ => {
            if !z.has_sibling(dir) {
                lemma_climb_keeps_root(z.ascend().unwrap(), dir);
            }
        },
    }
}

proof fn lemma_walk_keeps_root(z: Zipper, dir: Dir1D)
    requires
        z.walk(dir) is Ok,
    ensures
        z.walk(dir)->Ok_0.root == z.root,
{
    if z.enter(dir) is Err {
        lemma_climb_keeps_root(z, dir);
    }
}

proof fn lemma_sibling_keeps_root(z: Zipper, dir: Dir1D)
    requires
        z.sibling(dir) is Ok,
    ensures
        z.sibling(dir)->Ok_0.root == z.root,
    decreases depth(z.ctx),
{
    match z.ctx {
        Context::Variant { .. } => lemma_sibling_keeps_root(z.ascend().unwrap(), dir),
        _ => {},
    }
}

proof fn lemma_seek_keeps_root(z: Zipper, dir: Dir1D)
    requires
        z.seek(dir) is Ok,
    ensures
        z.seek(dir)->Ok_0.root == z.root,
    decreases z.remaining(dir),
{
    if !(z.tree is Blank) {
        lemma_walk_gets_closer(z, dir);
        lemma_walk_keeps_root(z, dir);
        lemma_seek_keeps_root(z.walk(dir)->Ok_0, dir);
    }
}

// ---------------------------------------------------------------------------
// The walk comes to an end

proof fn lemma_total_positive(s: Seq<nat>)
    requires
        forall|i: int| 0 <= i < s.len() ==> #[trigger] s[i] >= 1,
    ensures
        total(s) >= s.len(),
    decreases s.len(),
{
    if s.len() > 0 {
        lemma_total_positive(s.drop_last());
    }
}

proof fn lemma_span_positive(t: Tree)
    ensures
        span(t) >= 1,
{
}

proof fn lemma_side_counts(ctx: Context, dir: Dir1D)
    ensures
        ctx_remaining(ctx, dir) > 0 <==> climbable(ctx, dir),
    decreases ctx,
{
    match ctx {
        Context::Root(_) => {},
        Context::Tup { before, outer, after } => {
            let side = dir_side(dir, before, after);
            assert forall|i: int| 0 <= i < slot_spans(side).len() implies #[trigger] slot_spans(
                side,
            )[i] >= 1 by {
                lemma_span_positive(side[i].0);
            }
            lemma_total_positive(slot_spans(side));
            lemma_side_counts(*outer, dir);
        },
        Context::Vec { before, outer, after } => {
            let side = dir_side(dir, before, after);
            assert forall|i: int| 0 <= i < slot_spans(side).len() implies #[trigger] slot_spans(
                side,
            )[i] >= 1 by {
                lemma_span_positive(side[i].0);
            }
            lemma_total_positive(slot_spans(side));
            lemma_side_counts(*outer, dir);
        },
        Context::Product { before, outer, after, .. } => {
            let side = dir_side(dir, before, after);
            assert forall|i: int| 0 <= i < arm_spans(side).len() implies #[trigger] arm_spans(
                side,
            )[i] >= 1 by {
                lemma_span_positive(side[i].1);
            }
            lemma_total_positive(arm_spans(side));
            lemma_side_counts(*outer, dir);
        },
        Context::Variant { outer, .. } => lemma_side_counts(*outer, dir),
        Context::Option { outer, .. } => lemma_side_counts(*outer, dir),
    }
}

proof fn lemma_enter_needs_room(z: Zipper, dir: Dir1D)
    ensures
        z.enter(dir) is Ok <==> span(z.tree) > 1,
{
    match z.tree {
        Tree::Tup(slots) => {
            if slots.len() > 0 {
                assert forall|i: int| 0 <= i < slot_spans(slots).len() implies #[trigger] slot_spans(
                    slots,
                )[i] >= 1 by {
                    lemma_span_positive(slots[i].0);
                }
                lemma_total_positive(slot_spans(slots));
            } else {
                assert(slot_spans(slots) =~= Seq::<nat>::empty());
            }
        },
        Tree::Product(arms) => {
            if arms.len() > 0 {
                assert forall|i: int| 0 <= i < arm_spans(arms).len() implies #[trigger] arm_spans(
                    arms,
                )[i] >= 1 by {
                    lemma_span_positive(arms[i].1);
                }
                lemma_total_positive(arm_spans(arms));
            } else {
                assert(arm_spans(arms) =~= Seq::<nat>::empty());
            }
        },
        Tree::Vec(ts, _) => {
            if ts.len() > 0 {
                assert forall|i: int| 0 <= i < tree_spans(ts).len() implies #[trigger] tree_spans(
                    ts,
                )[i] >= 1 by {
                    lemma_span_positive(ts[i]);
                }
                lemma_total_positive(tree_spans(ts));
            } else {
                assert(tree_spans(ts) =~= Seq::<nat>::empty());
            }
        },
        Tree::Option(_, inner, _) => {
            lemma_span_positive(*inner);
        },
        Tree::Variant(c) => {
            if c.choice is Some {
                lemma_span_positive(c.choice->Some_0.1);
            }
        },
        _ => {},
    }
}

/// Every step of the walk visits one node of those that remain, and the walk
/// is exhausted exactly where none remains. So a walk from any cursor comes
/// to an end after as many steps as nodes remain.
pub proof fn law_walk_counts_down(z: Zipper, dir: Dir1D)
    ensures
        z.walk(dir) matches Ok(z2) ==> z2.remaining(dir) + 1 == z.remaining(dir),
        z.walk(dir) is Err <==> z.remaining(dir) == 0,
        z.walk(dir) is Err ==> z.walk(dir) == Err::<Zipper, EditError>(EditError::Exhausted),
{
    lemma_enter_needs_room(z, dir);
    lemma_side_counts(z.ctx, dir);
    lemma_climb_result(z, dir);
    lemma_span_positive(z.tree);
    if z.enter(dir) is Ok {
        lemma_enter_gets_closer(z, dir);
    } else if z.climb(dir) is Ok {
        lemma_climb_gets_closer(z, dir);
    }
}

// ---------------------------------------------------------------------------
// Seeking where there is no blank

proof fn lemma_ascend_blank_free(z: Zipper)
    requires
        z.blank_free(),
        z.ascend() is Ok,
    ensures
        z.ascend()->Ok_0.blank_free(),
{
    match z.ctx {
        Context::Tup { before, outer, after } => {
            let slots = before.push((z.tree, z.typ)) + after;
            assert forall|i: int| 0 <= i < slots.len() implies no_blank((#[trigger] slots[i]).0) by {
                if i < before.len() {
                    assert(slots[i] == before[i]);
                } else if i > before.len() {
                    assert(slots[i] == after[i - before.len() - 1]);
                }
            }
        },
        Context::Product { before, outer, label, after } => {
            let arms = before.push((label, z.tree, z.typ)) + after;
            assert forall|i: int| 0 <= i < arms.len() implies no_blank((#[trigger] arms[i]).1) by {
                if i < before.len() {
                    assert(arms[i] == before[i]);
                } else if i > before.len() {
                    assert(arms[i] == after[i - before.len() - 1]);
                }
            }
        },
        Context::Vec { before, outer, after } => {
            let ts = slot_trees(before).push(z.tree) + slot_trees(after);
            assert forall|i: int| 0 <= i < ts.len() implies no_blank(#[trigger] ts[i]) by {
                if i < before.len() {
                    assert(ts[i] == before[i].0);
                } else if i > before.len() {
                    assert(ts[i] == after[i - before.len() - 1].0);
                }
            }
        },
        _ => {},
    }
}

proof fn lemma_enter_blank_free(z: Zipper, dir: Dir1D)
    requires
        z.blank_free(),
        z.enter(dir) is Ok,
    ensures
        z.enter(dir)->Ok_0.blank_free(),
{
    match z.tree {
        Tree::Tup(slots) => {
            let rest = match dir {
                Dir1D::Forward => slots.drop_first(),
                Dir1D::Backward => slots.drop_last(),
            };
            assert forall|i: int| 0 <= i < rest.len() implies no_blank((#[trigger] rest[i]).0) by {
                match dir {
                    Dir1D::Forward => assert(rest[i] == slots[i + 1]),
                    Dir1D::Backward => assert(rest[i] == slots[i]),
                }
            }
        },
        Tree::Product(arms) => {
            let rest = match dir {
                Dir1D::Forward => arms.drop_first(),
                Dir1D::Backward => arms.drop_last(),
            };
            assert forall|i: int| 0 <= i < rest.len() implies no_blank((#[trigger] rest[i]).1) by {
                match dir {
                    Dir1D::Forward => assert(rest[i] == arms[i + 1]),
                    Dir1D::Backward => assert(rest[i] == arms[i]),
                }
            }
        },
        Tree::Vec(ts, s) => {
            let slots = slots_of(ts, s);
            let rest = match dir {
                Dir1D::Forward => slots.drop_first(),
                Dir1D::Backward => slots.drop_last(),
            };
            assert forall|i: int| 0 <= i < rest.len() implies no_blank((#[trigger] rest[i]).0) by {
                match dir {
                    Dir1D::Forward => {
                        assert(rest[i] == slots[i + 1]);
                        assert(no_blank(ts[i + 1]));
                    },
                    Dir1D::Backward => {
                        assert(rest[i] == slots[i]);
                        assert(no_blank(ts[i]));
                    },
                }
            }
            assert(no_blank(ts[0]) && no_blank(ts[ts.len() - 1]));
        },
        _ => {},
    }
}

proof fn lemma_shift_blank_free(z: Zipper, dir: Dir1D)
    requires
        z.blank_free(),
        z.has_sibling(dir),
    ensures
        z.shift(dir).blank_free(),
{
    match z.ctx {
        Context::Tup { before, outer, after } => {
            lemma_shift_slots_blank_free(dir, before, (z.tree, z.typ), after);
        },
        Context::Vec { before, outer, after } => {
            lemma_shift_slots_blank_free(dir, before, (z.tree, z.typ), after);
        },
        Context::Product { before, outer, label, after } => {
            let r = shift_arms(dir, before, (label, z.tree, z.typ), after);
            assert forall|i: int| 0 <= i < r.1.len() implies no_blank((#[trigger] r.1[i]).1) by {
                match dir {
                    Dir1D::Forward => {
                        if i < before.len() {
                            assert(r.1[i] == before[i]);
                        }
                    },
                    Dir1D::Backward => {
                        assert(r.1[i] == before[i]);
                    },
                }
            }
            assert forall|i: int| 0 <= i < r.2.len() implies no_blank((#[trigger] r.2[i]).1) by {
                match dir {
                    Dir1D::Forward => {
                        assert(r.2[i] == after[i + 1]);
                    },
                    Dir1D::Backward => {
                        if i > 0 {
                            assert(r.2[i] == after[i - 1]);
                        }
                    },
                }
            }
        },
        _ => {},
    }
}

proof fn lemma_shift_slots_blank_free(dir: Dir1D, before: Seq<Slot>, here: Slot, after: Seq<Slot>)
    requires
        crate::menu::model::dir_side(dir, before, after).len() > 0,
        slots_no_blank(before),
        slots_no_blank(after),
        no_blank(here.0),
    ensures
        ({
            let r = shift_slots(dir, before, here, after);
            &&& no_blank(r.0.0)
            &&& slots_no_blank(r.1)
            &&& slots_no_blank(r.2)
        }),
{
    let r = shift_slots(dir, before, here, after);
    assert forall|i: int| 0 <= i < r.1.len() implies no_blank((#[trigger] r.1[i]).0) by {
        match dir {
            Dir1D::Forward => {
                if i < before.len() {
                    assert(r.1[i] == before[i]);
                }
            },
            Dir1D::Backward => {
                assert(r.1[i] == before[i]);
            },
        }
    }
    assert forall|i: int| 0 <= i < r.2.len() implies no_blank((#[trigger] r.2[i]).0) by {
        match dir {
            Dir1D::Forward => {
                assert(r.2[i] == after[i + 1]);
            },
            Dir1D::Backward => {
                if i > 0 {
                    assert(r.2[i] == after[i - 1]);
                }
            },
        }
    }
}

proof fn lemma_climb_blank_free(z: Zipper, dir: Dir1D)
    requires
        z.blank_free(),
        z.climb(dir) is Ok,
    ensures
        z.climb(dir)->Ok_0.blank_free(),
    decreases depth(z.ctx),
{
    match z.ctx {
        Context::Root(_) => {},
        _ => {
            if z.has_sibling(dir) {
                lemma_shift_blank_free(z, dir);
            } else {
                lemma_ascend_blank_free(z);
                lemma_climb_blank_free(z.ascend().unwrap(), dir);
            }
        },
    }
}

/// Where neither the focus nor anything around it holds a blank, seeking a
/// blank ends with `Exhausted`, in either direction.
pub proof fn law_seek_without_blank(z: Zipper, dir: Dir1D)
    requires
        z.blank_free(),
    ensures
        z.seek(dir) == Err::<Zipper, EditError>(EditError::Exhausted),
    decreases z.remaining(dir),
{
    if z.walk(dir) is Ok {
        lemma_walk_gets_closer(z, dir);
        if z.enter(dir) is Ok {
            lemma_enter_blank_free(z, dir);
        } else {
            lemma_climb_blank_free(z, dir);
        }
        law_seek_without_blank(z.walk(dir)->Ok_0, dir);
    } else {
        lemma_climb_result(z, dir);
    }
}

/// `NextBlank` and `PrevBlank` on a whole tree that holds no blank end with
/// `Exhausted`.
pub proof fn law_seek_in_full_tree(tree: Tree, schema: Schema, dir: Dir1D)
    requires
        no_blank(tree),
    ensures
        Zipper::start(tree, schema).seek(dir) == Err::<Zipper, EditError>(EditError::Exhausted),
{
    law_seek_without_blank(Zipper::start(tree, schema), dir);
}

/// Moving to a neighbour and back gives back the cursor one started from.
pub proof fn law_shift_there_and_back(z: Zipper, dir: Dir1D)
    requires
        z.has_sibling(dir),
    ensures
        z.shift(dir).has_sibling(
            match dir {
                Dir1D::Forward => Dir1D::Backward,
                Dir1D::Backward => Dir1D::Forward,
            },
        ),
        z.shift(dir).shift(
            match dir {
                Dir1D::Forward => Dir1D::Backward,
                Dir1D::Backward => Dir1D::Forward,
            },
        ) == z,
{
    let back = match dir {
        Dir1D::Forward => Dir1D::Backward,
        Dir1D::Backward => Dir1D::Forward,
    };
    let r = z.shift(dir).shift(back);
    match z.ctx {
        Context::Tup { before, outer, after } => {
            let s1 = shift_slots(dir, before, (z.tree, z.typ), after);
            let s2 = shift_slots(back, s1.1, s1.0, s1.2);
            assert(s2.1 =~= before);
            assert(s2.2 =~= after);
        },
        Context::Vec { before, outer, after } => {
            let s1 = shift_slots(dir, before, (z.tree, z.typ), after);
            let s2 = shift_slots(back, s1.1, s1.0, s1.2);
            assert(s2.1 =~= before);
            assert(s2.2 =~= after);
        },
        Context::Product { before, outer, label, after } => {
            let s1 = shift_arms(dir, before, (label, z.tree, z.typ), after);
            let s2 = shift_arms(back, s1.1, s1.0, s1.2);
            assert(s2.1 =~= before);
            assert(s2.2 =~= after);
        },
        _ => {},
    }
}

// ---------------------------------------------------------------------------
// Cycling through the arms of a union

proof fn lemma_cycle_forward_split(c: Choice, a: nat, b: nat)
    ensures
        c.cycle_forward_n(a + b) == c.cycle_forward_n(a).cycle_forward_n(b),
    decreases a,
{
    if a > 0 {
        lemma_cycle_forward_split(c.cycle(Dir1D::Forward), (a - 1) as nat, b);
        assert(c.cycle_forward_n(a + b) == c.cycle(Dir1D::Forward).cycle_forward_n(
            (a + b - 1) as nat,
        ));
    }
}

/// While arms are left in `after`, `k` steps forward move the first `k` of
/// them across: the last of these is chosen, the others join `before` behind
/// the arm that was chosen.
proof fn lemma_cycle_forward_within(c: Choice, k: nat)
    requires
        1 <= k <= c.after.len(),
    ensures
        c.cycle_forward_n(k) == (Choice {
            before: c.before + opt_arm(c.choice) + c.after.subrange(0, k - 1),
            choice: Some(c.after[k - 1]),
            after: c.after.subrange(k as int, c.after.len() as int),
        }),
    decreases k,
{
    let c1 = c.cycle(Dir1D::Forward);
    let goal = Choice {
        before: c.before + opt_arm(c.choice) + c.after.subrange(0, k - 1),
        choice: Some(c.after[k - 1]),
        after: c.after.subrange(k as int, c.after.len() as int),
    };
    assert(c.cycle_forward_n(k) == c1.cycle_forward_n((k - 1) as nat));
    if k == 1 {
        assert(c1.cycle_forward_n(0) == c1);
        assert(c1.before =~= goal.before);
        assert(c1.after =~= goal.after);
    } else {
        lemma_cycle_forward_within(c1, (k - 1) as nat);
        let r = c1.cycle_forward_n((k - 1) as nat);
        assert(r.before =~= goal.before);
        assert(r.after =~= goal.after);
    }
}

/// Cycling forward through a union comes back to where it started after one
/// step for each arm and one more for the state in which none is chosen.
///
/// This holds of every choice that the forward cycle passes through: one
/// with an arm chosen, or with no arm chosen and all arms in `after`.
pub proof fn law_cycle_closes(c: Choice)
    requires
        c.choice is Some || c.before.len() == 0,
    ensures
        c.cycle_forward_n(c.arms().len() + 1) == c,
{
    let arms = c.arms();
    let n = arms.len();
    let a = c.after.len();
    // First leg: to the last arm.
    let c1 = c.cycle_forward_n(a);
    if a > 0 {
        lemma_cycle_forward_within(c, a);
    }
    assert(c1.after.len() == 0);
    assert(c1.before + opt_arm(c1.choice) =~= arms) by {
        if a > 0 {
            assert(c.after.subrange(0, a - 1).push(c.after[a - 1]) =~= c.after);
        }
    }
    // Second leg: one step to the state with none chosen.
    let c2 = c1.cycle(Dir1D::Forward);
    assert(c2 == (Choice { before: Seq::empty(), choice: None, after: arms }));
    assert(c1.cycle_forward_n(1) == c2) by {
        assert(c2.cycle_forward_n(0) == c2);
    }
    // Third leg: to the arm that was chosen at the start.
    let m = (n - a) as nat;
    let c3 = c2.cycle_forward_n(m);
    if m > 0 {
        lemma_cycle_forward_within(c2, m);
        assert(c.choice is Some);
        assert(m == c.before.len() + 1);
        assert(c3.before =~= c.before);
        assert(c3.after =~= c.after);
        assert(arms[m - 1] == c.choice->Some_0);
    } else {
        assert(c.after =~= arms);
        assert(c.before =~= Seq::<Arm>::empty());
    }
    assert(c3 == c);
    lemma_cycle_forward_split(c, a, (1 + m) as nat);
    lemma_cycle_forward_split(c1, 1, m);
}

proof fn lemma_cycle_backward_split(c: Choice, a: nat, b: nat)
    ensures
        c.cycle_backward_n(a + b) == c.cycle_backward_n(a).cycle_backward_n(b),
    decreases a,
{
    if a > 0 {
        lemma_cycle_backward_split(c.cycle(Dir1D::Backward), (a - 1) as nat, b);
        assert(c.cycle_backward_n(a + b) == c.cycle(Dir1D::Backward).cycle_backward_n(
            (a + b - 1) as nat,
        ));
    }
}

/// While arms are left in `before`, `k` steps backward move the last `k` of
/// them across: the first of these is chosen, the others join `after` in
/// front of the arm that was chosen.
proof fn lemma_cycle_backward_within(c: Choice, k: nat)
    requires
        1 <= k <= c.before.len(),
    ensures
        c.cycle_backward_n(k) == (Choice {
            before: c.before.subrange(0, c.before.len() - k),
            choice: Some(c.before[c.before.len() - k]),
            after: c.before.subrange(c.before.len() - k + 1, c.before.len() as int) + opt_arm(
                c.choice,
            ) + c.after,
        }),
    decreases k,
{
    let c1 = c.cycle(Dir1D::Backward);
    let n = c.before.len();
    let goal = Choice {
        before: c.before.subrange(0, n - k),
        choice: Some(c.before[n - k]),
        after: c.before.subrange(n - k + 1, n as int) + opt_arm(c.choice) + c.after,
    };
    assert(c.cycle_backward_n(k) == c1.cycle_backward_n((k - 1) as nat));
    if k == 1 {
        assert(c1.cycle_backward_n(0) == c1);
        assert(c1.before =~= goal.before);
        assert(c1.after =~= goal.after);
    } else {
        lemma_cycle_backward_within(c1, (k - 1) as nat);
        let r = c1.cycle_backward_n((k - 1) as nat);
        assert(r.before =~= goal.before);
        assert(r.after =~= goal.after);
    }
}

/// Cycling backward through a union comes back to where it started after
/// one step for each arm and one more for the state in which none is chosen.
///
/// This holds of every choice that the backward cycle passes through: one
/// with an arm chosen, or with no arm chosen and all arms in `before`.
pub proof fn law_cycle_backward_closes(c: Choice)
    requires
        c.choice is Some || c.after.len() == 0,
    ensures
        c.cycle_backward_n(c.arms().len() + 1) == c,
{
    let arms = c.arms();
    let n = arms.len();
    let b = c.before.len();
    // First leg: to the first arm.
    let c1 = c.cycle_backward_n(b);
    if b > 0 {
        lemma_cycle_backward_within(c, b);
    }
    assert(c1.before.len() == 0);
    assert(opt_arm(c1.choice) + c1.after =~= arms) by {
        if b > 0 {
            assert(seq![c.before[0]] + c.before.subrange(1, b as int) =~= c.before);
        }
    }
    // Second leg: one step to the state with none chosen.
    let c2 = c1.cycle(Dir1D::Backward);
    assert(c2 == (Choice { before: arms, choice: None, after: Seq::empty() }));
    assert(c1.cycle_backward_n(1) == c2) by {
        assert(c2.cycle_backward_n(0) == c2);
    }
    // Third leg: to the arm that was chosen at the start.
    let m = (n - b) as nat;
    let c3 = c2.cycle_backward_n(m);
    if m > 0 {
        lemma_cycle_backward_within(c2, m);
        assert(c.choice is Some);
        assert(m == c.after.len() + 1);
        assert(c3.before =~= c.before);
        assert(c3.after =~= c.after);
        assert(arms[n - m] == c.choice->Some_0);
    } else {
        assert(c.before =~= arms);
        assert(c.after =~= Seq::<Arm>::empty());
    }
    assert(c3 == c);
    lemma_cycle_backward_split(c, b, (1 + m) as nat);
    lemma_cycle_backward_split(c1, 1, m);
}

/// A step forward and a step backward undo one another wherever an arm is
/// chosen before and after the first of the two.
pub proof fn law_cycle_there_and_back(c: Choice, dir: Dir1D)
    requires
        c.choice is Some,
        c.cycle(dir).choice is Some,
    ensures
        c.cycle(dir).cycle(
            match dir {
                Dir1D::Forward => Dir1D::Backward,
                Dir1D::Backward => Dir1D::Forward,
            },
        ) == c,
{
    let back = match dir {
        Dir1D::Forward => Dir1D::Backward,
        Dir1D::Backward => Dir1D::Forward,
    };
    let r = c.cycle(dir).cycle(back);
    assert(r.before =~= c.before);
    assert(r.after =~= c.after);
}

} // verus!
