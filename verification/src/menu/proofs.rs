//! Lemmas about the model that the editor's proofs rest on.

use crate::menu::model::{
    arm_schemas, arm_spans, arms_conform, climbable, conforms, ctx_ok, ctx_remaining, depth,
    dir_side, fill, fill_arms, fill_slots, merge, merge_arms, mergeable, opt_arm, shape,
    shift_arms, shift_slots, slot_schemas, slot_spans, slot_trees, slots_conform, slots_of, span,
    total, tree_spans, Arm, Choice, CommandView, Context, EditCommand, EditError, EditorView,
    Schema, Slot, Tree, Zipper,
};
use crate::types::lang::Dir1D;
use vstd::prelude::*;

verus! {

/// A sum is its first number plus the sum of the rest.
pub proof fn lemma_total_first(s: Seq<nat>)
    requires
        s.len() > 0,
    ensures
        total(s) == s[0] + total(s.drop_first()),
    decreases s.len(),
{
    if s.len() == 1 {
        assert(s.drop_last() =~= Seq::<nat>::empty());
        assert(s.drop_first() =~= Seq::<nat>::empty());
    } else {
        lemma_total_first(s.drop_last());
        assert(s.drop_last().drop_first() =~= s.drop_first().drop_last());
        assert(s.drop_first().last() == s.last());
    }
}

/// Entering the focus leaves one node less to visit.
pub proof fn lemma_enter_gets_closer(z: Zipper, dir: Dir1D)
    requires
        z.enter(dir) is Ok,
    ensures
        z.enter(dir)->Ok_0.remaining(dir) + 1 == z.remaining(dir),
{
    let z2 = z.enter(dir)->Ok_0;
    match z.tree {
        Tree::Tup(slots) => {
            let sp = slot_spans(slots);
            match dir {
                Dir1D::Forward => {
                    lemma_total_first(sp);
                    assert(slot_spans(slots.drop_first()) =~= sp.drop_first());
                },
                Dir1D::Backward => {
                    assert(slot_spans(slots.drop_last()) =~= sp.drop_last());
                },
            }
        },
        Tree::Product(arms) => {
            let sp = arm_spans(arms);
            match dir {
                Dir1D::Forward => {
                    lemma_total_first(sp);
                    assert(arm_spans(arms.drop_first()) =~= sp.drop_first());
                },
                Dir1D::Backward => {
                    assert(arm_spans(arms.drop_last()) =~= sp.drop_last());
                },
            }
        },
        Tree::Vec(ts, s) => {
            let sp = tree_spans(ts);
            let slots = slots_of(ts, s);
            match dir {
                Dir1D::Forward => {
                    lemma_total_first(sp);
                    assert(slot_spans(slots.drop_first()) =~= sp.drop_first());
                },
                Dir1D::Backward => {
                    assert(slot_spans(slots.drop_last()) =~= sp.drop_last());
                },
            }
        },
        _ => {},
    }
}

/// Climbing from the focus reaches a node that the context still had to
/// offer, and leaves one less.
pub proof fn lemma_climb_gets_closer(z: Zipper, dir: Dir1D)
    requires
        z.climb(dir) is Ok,
    ensures
        z.climb(dir)->Ok_0.remaining(dir) + 1 == ctx_remaining(z.ctx, dir),
    decreases depth(z.ctx),
{
    if z.has_sibling(dir) {
        match z.ctx {
            Context::Tup { before, outer, after } => {
                lemma_shift_slots_closer(dir, before, (z.tree, z.typ), after);
            },
            Context::Vec { before, outer, after } => {
                lemma_shift_slots_closer(dir, before, (z.tree, z.typ), after);
            },
            Context::Product { before, outer, label, after } => {
                let sp = arm_spans(dir_side(dir, before, after));
                match dir {
                    Dir1D::Forward => {
                        lemma_total_first(sp);
                        assert(arm_spans(after.drop_first()) =~= sp.drop_first());
                    },
                    Dir1D::Backward => {
                        assert(arm_spans(before.drop_last()) =~= sp.drop_last());
                    },
                }
            },
            _ => {},
        }
    } else {
        match z.ctx {
            Context::Root(_) => {},
            _ => {
                lemma_climb_gets_closer(z.ascend().unwrap(), dir);
            },
        }
    }
}

proof fn lemma_shift_slots_closer(dir: Dir1D, before: Seq<Slot>, here: Slot, after: Seq<Slot>)
    requires
        dir_side(dir, before, after).len() > 0,
    ensures
        ({
            let r = shift_slots(dir, before, here, after);
            span(r.0.0) + total(slot_spans(dir_side(dir, r.1, r.2))) == total(
                slot_spans(dir_side(dir, before, after)),
            )
        }),
{
    let sp = slot_spans(dir_side(dir, before, after));
    match dir {
        Dir1D::Forward => {
            lemma_total_first(sp);
            assert(slot_spans(after.drop_first()) =~= sp.drop_first());
        },
        Dir1D::Backward => {
            assert(slot_spans(before.drop_last()) =~= sp.drop_last());
        },
    }
}

/// Every step of the walk leaves fewer nodes to visit.
pub proof fn lemma_walk_gets_closer(z: Zipper, dir: Dir1D)
    requires
        z.walk(dir) is Ok,
    ensures
        z.walk(dir)->Ok_0.remaining(dir) < z.remaining(dir),
{
    if z.enter(dir) is Ok {
        lemma_enter_gets_closer(z, dir);
    } else {
        lemma_climb_gets_closer(z, dir);
    }
}

/// Climbing succeeds exactly where some frame has an occupant left, and
/// fails in no other way than by exhaustion.
pub proof fn lemma_climb_result(z: Zipper, dir: Dir1D)
    ensures
        z.climb(dir) is Ok <==> climbable(z.ctx, dir),
        z.climb(dir) is Err ==> z.climb(dir) == Err::<Zipper, EditError>(EditError::Exhausted),
    decreases depth(z.ctx),
{
    match z.ctx {
        Context::Root(_) => {},
        _ => {
            if !z.has_sibling(dir) {
                lemma_climb_result(z.ascend().unwrap(), dir);
            }
        },
    }
}

// ---------------------------------------------------------------------------
// Every move keeps the cursor well formed

/// Ascending keeps the cursor well formed.
pub proof fn lemma_ascend_wf(z: Zipper)
    requires
        z.wf(),
        z.ascend() is Ok,
    ensures
        z.ascend()->Ok_0.wf(),
{
    let z2 = z.ascend()->Ok_0;
    match z.ctx {
        Context::Root(_) => {},
        Context::Tup { before, outer, after } => {
            let slots = before.push((z.tree, z.typ)) + after;
            assert(slot_schemas(slots) =~= slot_schemas(before.push((Tree::Null, z.typ)) + after));
            assert forall|i: int| 0 <= i < slots.len() implies conforms(
                (#[trigger] slots[i]).0,
                slots[i].1,
            ) by {
                if i < before.len() {
                    assert(slots[i] == before[i]);
                } else if i > before.len() {
                    assert(slots[i] == after[i - before.len() - 1]);
                }
            }
        },
        Context::Product { before, outer, label, after } => {
            let arms = before.push((label, z.tree, z.typ)) + after;
            assert(arm_schemas(arms) =~= arm_schemas(
                before.push((label, Tree::Null, z.typ)) + after,
            ));
            assert forall|i: int| 0 <= i < arms.len() implies conforms(
                (#[trigger] arms[i]).1,
                arms[i].2,
            ) by {
                if i < before.len() {
                    assert(arms[i] == before[i]);
                } else if i > before.len() {
                    assert(arms[i] == after[i - before.len() - 1]);
                }
            }
        },
        Context::Variant { before, outer, label, after } => {
            let c = Choice { before, choice: Some((label, z.tree, z.typ)), after };
            assert(arm_schemas(c.arms()) =~= arm_schemas(
                before.push((label, Tree::Null, z.typ)) + after,
            ));
        },
        Context::Option { present, outer } => {},
        Context::Vec { before, outer, after } => {
            let ts = slot_trees(before).push(z.tree) + slot_trees(after);
            assert forall|i: int| 0 <= i < ts.len() implies conforms(#[trigger] ts[i], z.typ) by {
                if i < before.len() {
                    assert(ts[i] == before[i].0);
                } else if i > before.len() {
                    assert(ts[i] == after[i - before.len() - 1].0);
                }
            }
        },
    }
}

/// Entering the focus keeps the cursor well formed.
pub proof fn lemma_enter_wf(z: Zipper, dir: Dir1D)
    requires
        z.wf(),
        z.enter(dir) is Ok,
    ensures
        z.enter(dir)->Ok_0.wf(),
{
    let z2 = z.enter(dir)->Ok_0;
    match z.tree {
        Tree::Tup(slots) => {
            match dir {
                Dir1D::Forward => {
                    let rest = slots.drop_first();
                    assert(slot_schemas(Seq::<Slot>::empty().push((Tree::Null, slots[0].1)) + rest)
                        =~= slot_schemas(slots));
                    assert forall|i: int| 0 <= i < rest.len() implies conforms(
                        (#[trigger] rest[i]).0,
                        rest[i].1,
                    ) by {
                        assert(rest[i] == slots[i + 1]);
                    }
                },
                Dir1D::Backward => {
                    let rest = slots.drop_last();
                    assert(slot_schemas(
                        rest.push((Tree::Null, slots.last().1)) + Seq::<Slot>::empty(),
                    ) =~= slot_schemas(slots));
                    assert forall|i: int| 0 <= i < rest.len() implies conforms(
                        (#[trigger] rest[i]).0,
                        rest[i].1,
                    ) by {
                        assert(rest[i] == slots[i]);
                    }
                },
            }
        },
        Tree::Product(arms) => {
            match dir {
                Dir1D::Forward => {
                    let rest = arms.drop_first();
                    assert(arm_schemas(
                        Seq::<Arm>::empty().push((arms[0].0, Tree::Null, arms[0].2)) + rest,
                    ) =~= arm_schemas(arms));
                    assert forall|i: int| 0 <= i < rest.len() implies conforms(
                        (#[trigger] rest[i]).1,
                        rest[i].2,
                    ) by {
                        assert(rest[i] == arms[i + 1]);
                    }
                },
                Dir1D::Backward => {
                    let rest = arms.drop_last();
                    assert(arm_schemas(
                        rest.push((arms.last().0, Tree::Null, arms.last().2)) + Seq::<Arm>::empty(),
                    ) =~= arm_schemas(arms));
                    assert forall|i: int| 0 <= i < rest.len() implies conforms(
                        (#[trigger] rest[i]).1,
                        rest[i].2,
                    ) by {
                        assert(rest[i] == arms[i]);
                    }
                },
            }
        },
        Tree::Vec(ts, s) => {
            let slots = slots_of(ts, s);
            match dir {
                Dir1D::Forward => {
                    let rest = slots.drop_first();
                    assert forall|i: int| 0 <= i < rest.len() implies conforms(
                        (#[trigger] rest[i]).0,
                        rest[i].1,
                    ) && rest[i].1 == s by {
                        assert(rest[i] == slots[i + 1]);
                        assert(conforms(ts[i + 1], s));
                    }
                    assert(conforms(ts[0], s));
                },
                Dir1D::Backward => {
                    let rest = slots.drop_last();
                    assert forall|i: int| 0 <= i < rest.len() implies conforms(
                        (#[trigger] rest[i]).0,
                        rest[i].1,
                    ) && rest[i].1 == s by {
                        assert(rest[i] == slots[i]);
                        assert(conforms(ts[i], s));
                    }
                    assert(conforms(ts[ts.len() - 1], s));
                },
            }
        },
        Tree::Option(present, inner, s) => {},
        Tree::Variant(c) => {
            let a = c.choice->Some_0;
            assert(arm_schemas(c.before.push((a.0, Tree::Null, a.2)) + c.after) =~= arm_schemas(
                c.arms(),
            ));
        },
        _ => {},
    }
}

/// The `Descend` command keeps the cursor well formed.
pub proof fn lemma_descend_wf(z: Zipper, dir: Dir1D)
    requires
        z.wf(),
        z.descend(dir) is Ok,
    ensures
        z.descend(dir)->Ok_0.wf(),
{
    match z.tree {
        Tree::Nat(_) => {},
        Tree::Int(_) => {},
        _ => {
            lemma_enter_wf(z, dir);
        },
    }
}

/// Moving to a neighbour keeps the cursor well formed.
pub proof fn lemma_shift_wf(z: Zipper, dir: Dir1D)
    requires
        z.wf(),
        z.has_sibling(dir),
    ensures
        z.shift(dir).wf(),
{
    match z.ctx {
        Context::Tup { before, outer, after } => {
            let here = (z.tree, z.typ);
            let r = shift_slots(dir, before, here, after);
            assert(slot_schemas(r.1.push((Tree::Null, r.0.1)) + r.2) =~= slot_schemas(
                before.push((Tree::Null, z.typ)) + after,
            ));
            lemma_shift_slots_conform(dir, before, here, after);
        },
        Context::Vec { before, outer, after } => {
            let here = (z.tree, z.typ);
            lemma_shift_slots_conform(dir, before, here, after);
            let r = shift_slots(dir, before, here, after);
            assert forall|i: int| 0 <= i < r.1.len() implies (#[trigger] r.1[i]).1 == r.0.1 by {
                match dir {
                    Dir1D::Forward => {
                        if i < before.len() {
                            assert(r.1[i] == before[i]);
                        }
                    },
                    Dir1D::Backward => {
                        assert(r.1[i] == before[i]);
                    },
                }
            }
            assert forall|i: int| 0 <= i < r.2.len() implies (#[trigger] r.2[i]).1 == r.0.1 by {
                match dir {
                    Dir1D::Forward => {
                        assert(r.2[i] == after[i + 1]);
                    },
                    Dir1D::Backward => {
                        if i > 0 {
                            assert(r.2[i] == after[i - 1]);
                        }
                    },
                }
            }
        },
        Context::Product { before, outer, label, after } => {
            let here = (label, z.tree, z.typ);
            let r = shift_arms(dir, before, here, after);
            assert(arm_schemas(r.1.push((r.0.0, Tree::Null, r.0.2)) + r.2) =~= arm_schemas(
                before.push((label, Tree::Null, z.typ)) + after,
            ));
            assert forall|i: int| 0 <= i < r.1.len() implies conforms(
                (#[trigger] r.1[i]).1,
                r.1[i].2,
            ) by {
                match dir {
                    Dir1D::Forward => {
                        if i < before.len() {
                            assert(r.1[i] == before[i]);
                        }
                    },
                    Dir1D::Backward => {
                        assert(r.1[i] == before[i]);
                    },
                }
            }
            assert forall|i: int| 0 <= i < r.2.len() implies conforms(
                (#[trigger] r.2[i]).1,
                r.2[i].2,
            ) by {
                match dir {
                    Dir1D::Forward => {
                        assert(r.2[i] == after[i + 1]);
                    },
                    Dir1D::Backward => {
                        if i > 0 {
                            assert(r.2[i] == after[i - 1]);
                        }
                    },
                }
            }
        },
        _ => {},
    }
}

proof fn lemma_shift_slots_conform(dir: Dir1D, before: Seq<Slot>, here: Slot, after: Seq<Slot>)
    requires
        dir_side(dir, before, after).len() > 0,
        slots_conform(before),
        slots_conform(after),
        conforms(here.0, here.1),
    ensures
        ({
            let r = shift_slots(dir, before, here, after);
            &&& conforms(r.0.0, r.0.1)
            &&& slots_conform(r.1)
            &&& slots_conform(r.2)
        }),
{
    let r = shift_slots(dir, before, here, after);
    assert forall|i: int| 0 <= i < r.1.len() implies conforms((#[trigger] r.1[i]).0, r.1[i].1) by {
        match dir {
            Dir1D::Forward => {
                if i < before.len() {
                    assert(r.1[i] == before[i]);
                }
            },
            Dir1D::Backward => {
                assert(r.1[i] == before[i]);
            },
        }
    }
    assert forall|i: int| 0 <= i < r.2.len() implies conforms((#[trigger] r.2[i]).0, r.2[i].1) by {
        match dir {
            Dir1D::Forward => {
                assert(r.2[i] == after[i + 1]);
            },
            Dir1D::Backward => {
                if i > 0 {
                    assert(r.2[i] == after[i - 1]);
                }
            },
        }
    }
}

/// Sibling motion never fails and keeps the cursor well formed.
pub proof fn lemma_sibling_wf(z: Zipper, dir: Dir1D)
    requires
        z.wf(),
    ensures
        z.sibling(dir) is Ok,
        z.sibling(dir)->Ok_0.wf(),
    decreases depth(z.ctx),
{
    match z.ctx {
        Context::Root(_) => {},
        Context::Option { .. } => {},
        Context::Variant { .. } => {
            lemma_ascend_wf(z);
            lemma_sibling_wf(z.ascend().unwrap(), dir);
        },
        _ => {
            if z.has_sibling(dir) {
                lemma_shift_wf(z, dir);
            } else {
                lemma_ascend_wf(z);
                lemma_enter_wf(z.ascend().unwrap(), dir);
            }
        },
    }
}

/// Climbing keeps the cursor well formed.
pub proof fn lemma_climb_wf(z: Zipper, dir: Dir1D)
    requires
        z.wf(),
        z.climb(dir) is Ok,
    ensures
        z.climb(dir)->Ok_0.wf(),
    decreases depth(z.ctx),
{
    match z.ctx {
        Context::Root(_) => {},
        _ => {
            if z.has_sibling(dir) {
                lemma_shift_wf(z, dir);
            } else {
                lemma_ascend_wf(z);
                lemma_climb_wf(z.ascend().unwrap(), dir);
            }
        },
    }
}

/// A step of the walk keeps the cursor well formed.
pub proof fn lemma_walk_wf(z: Zipper, dir: Dir1D)
    requires
        z.wf(),
        z.walk(dir) is Ok,
    ensures
        z.walk(dir)->Ok_0.wf(),
{
    if z.enter(dir) is Ok {
        lemma_enter_wf(z, dir);
    } else {
        lemma_climb_wf(z, dir);
    }
}

/// Seeking a blank keeps the cursor well formed.
pub proof fn lemma_seek_wf(z: Zipper, dir: Dir1D)
    requires
        z.wf(),
        z.seek(dir) is Ok,
    ensures
        z.seek(dir)->Ok_0.wf(),
    decreases z.remaining(dir),
{
    if !(z.tree is Blank) {
        lemma_walk_gets_closer(z, dir);
        lemma_walk_wf(z, dir);
        lemma_seek_wf(z.walk(dir)->Ok_0, dir);
    }
}

/// Ascending to the root keeps the cursor well formed, and ends at the root
/// with a tree of the root schema.
pub proof fn lemma_top_wf(z: Zipper)
    requires
        z.wf(),
    ensures
        z.top().wf(),
        z.top().ctx is Root,
        z.top().root == z.root,
        conforms(z.top().tree, z.root),
    decreases depth(z.ctx),
{
    match z.ctx {
        Context::Root(_) => {},
        _ => {
            lemma_ascend_wf(z);
            lemma_top_wf(z.ascend().unwrap());
        },
    }
}

/// Cycling keeps the arms, their order and their number.
pub proof fn lemma_cycle_keeps_arms(c: Choice, dir: Dir1D)
    ensures
        c.cycle(dir).arms() == c.arms(),
{
    assert(c.cycle(dir).arms() =~= c.arms());
}

/// Choosing another arm keeps the cursor well formed.
pub proof fn lemma_cycle_wf(z: Zipper, dir: Dir1D)
    requires
        z.wf(),
        z.cycle_variant(dir) is Ok,
    ensures
        z.cycle_variant(dir)->Ok_0.wf(),
{
    let c = z.tree->Variant_0;
    let c2 = c.cycle(dir);
    lemma_cycle_keeps_arms(*c, dir);
    assert forall|i: int| 0 <= i < c2.before.len() implies conforms(
        (#[trigger] c2.before[i]).1,
        c2.before[i].2,
    ) by {
        match dir {
            Dir1D::Forward => {
                if c.after.len() > 0 {
                    if i < c.before.len() {
                        assert(c2.before[i] == c.before[i]);
                    }
                }
            },
            Dir1D::Backward => {
                if c.before.len() > 0 {
                    assert(c2.before[i] == c.before[i]);
                } else {
                    if c.choice is Some {
                        if i > 0 {
                            assert(c2.before[i] == c.after[i - 1]);
                        }
                    } else {
                        assert(c2.before[i] == c.after[i]);
                    }
                }
            },
        }
    }
    assert forall|i: int| 0 <= i < c2.after.len() implies conforms(
        (#[trigger] c2.after[i]).1,
        c2.after[i].2,
    ) by {
        match dir {
            Dir1D::Forward => {
                if c.after.len() > 0 {
                    assert(c2.after[i] == c.after[i + 1]);
                } else {
                    if i < c.before.len() {
                        assert(c2.after[i] == c.before[i]);
                    }
                }
            },
            Dir1D::Backward => {
                if c.before.len() > 0 {
                    if c.choice is Some {
                        if i > 0 {
                            assert(c2.after[i] == c.after[i - 1]);
                        }
                    } else {
                        assert(c2.after[i] == c.after[i]);
                    }
                }
            },
        }
    }
}

/// The canonical tree of a schema conforms to it.
pub proof fn lemma_fill_conforms(s: Schema, d: nat)
    ensures
        conforms(fill(s, d), s),
    decreases d,
{
    match s {
        Schema::Prim(k) => {},
        _ => {
            if d > 0 {
                let e = (d - 1) as nat;
                match s {
                    Schema::Variant(fs) => {
                        let arms = fill_arms(fs, e);
                        let c = Choice { before: Seq::empty(), choice: None, after: arms };
                        assert(arm_schemas(c.arms()) =~= fs);
                        assert forall|i: int| 0 <= i < arms.len() implies conforms(
                            (#[trigger] arms[i]).1,
                            arms[i].2,
                        ) by {
                            lemma_fill_conforms(fs[i].1, e);
                        }
                    },
                    Schema::Product(fs) => {
                        let arms = fill_arms(fs, e);
                        assert(arm_schemas(arms) =~= fs);
                        assert forall|i: int| 0 <= i < arms.len() implies conforms(
                            (#[trigger] arms[i]).1,
                            arms[i].2,
                        ) by {
                            lemma_fill_conforms(fs[i].1, e);
                        }
                    },
                    Schema::Vec(t) => {
                        if d > 1 {
                            lemma_fill_conforms(*t, e);
                        }
                    },
                    Schema::Option(t) => {
                        lemma_fill_conforms(*t, e);
                    },
                    Schema::Tup(ts) => {
                        let slots = fill_slots(ts, e);
                        assert(slot_schemas(slots) =~= ts);
                        assert forall|i: int| 0 <= i < slots.len() implies conforms(
                            (#[trigger] slots[i]).0,
                            slots[i].1,
                        ) by {
                            lemma_fill_conforms(ts[i], e);
                        }
                    },
                    _ => {},
                }
            }
        },
    }
}

/// Two trees of one schema can be merged, and the merged tree is of that
/// schema too.
pub proof fn lemma_merge_conforms(a: Tree, b: Tree, s: Schema)
    requires
        conforms(a, s),
        conforms(b, s),
    ensures
        mergeable(a, b),
        conforms(merge(a, b), s),
    decreases a,
{
    match (a, b) {
        (Tree::Product(x), Tree::Product(y)) => {
            let m = merge_arms(x, y);
            assert(arm_schemas(x).len() == arm_schemas(y).len());
            assert forall|i: int| 0 <= i < x.len() implies mergeable((#[trigger] x[i]).1, y[i].1)
                && conforms(merge(x[i].1, y[i].1), x[i].2) by {
                assert(arm_schemas(x)[i] == arm_schemas(y)[i]);
                lemma_merge_conforms(x[i].1, y[i].1, x[i].2);
            }
            assert(arm_schemas(m) =~= arm_schemas(x));
            assert forall|i: int| 0 <= i < m.len() implies conforms((#[trigger] m[i]).1, m[i].2) by {
                assert(mergeable(x[i].1, y[i].1));
            }
        },
        _ => {},
    }
}

/// Every edit command that succeeds keeps the cursor well formed.
pub proof fn lemma_edit_wf(z: Zipper, cmd: EditCommand)
    requires
        z.wf(),
        z.edit(cmd) is Ok,
    ensures
        z.edit(cmd)->Ok_0.wf(),
{
    match cmd {
        EditCommand::Commit => lemma_top_wf(z),
        EditCommand::GotoRoot => lemma_top_wf(z),
        EditCommand::AutoFill => {
            lemma_fill_conforms(z.typ, 1);
            lemma_merge_conforms(z.tree, fill(z.typ, 1), z.typ);
        },
        EditCommand::Clear => {},
        EditCommand::NextTree => lemma_walk_wf(z, Dir1D::Forward),
        EditCommand::PrevTree => lemma_walk_wf(z, Dir1D::Backward),
        EditCommand::Ascend => lemma_ascend_wf(z),
        EditCommand::Descend => lemma_descend_wf(z, Dir1D::Forward),
        EditCommand::NextSibling => lemma_sibling_wf(z, Dir1D::Forward),
        EditCommand::PrevSibling => lemma_sibling_wf(z, Dir1D::Backward),
        EditCommand::NextVariant => lemma_cycle_wf(z, Dir1D::Forward),
        EditCommand::PrevVariant => lemma_cycle_wf(z, Dir1D::Backward),
        EditCommand::AcceptVariant => lemma_ascend_wf(z),
        EditCommand::NextBlank => lemma_seek_wf(z, Dir1D::Forward),
        EditCommand::PrevBlank => lemma_seek_wf(z, Dir1D::Backward),
        EditCommand::VecInsertBlank => {},
        EditCommand::VecInsertAuto => {},
    }
}

} // verus!
