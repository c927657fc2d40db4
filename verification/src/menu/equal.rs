//! Equality of schemas and of trees: two values are equal where they stand
//! for the same thing.

use crate::menu::{
    arms_model, fields_model, opt_arm_model, slots_model, trees_model, types_model, Label,
    LabelChoice, MenuTree, MenuType,
};
use vstd::prelude::*;
use vstd::std_specs::cmp::PartialEqSpecImpl;

verus! {

/// Whether both lists hold the same labelled schemas in the same order.
pub fn same_fields(a: &Vec<(Label, MenuType)>, b: &Vec<(Label, MenuType)>) -> (r: bool)
    ensures
        r == (fields_model(a@) == fields_model(b@)),
    decreases a,
{
    if a.len() != b.len() {
        assert(fields_model(a@).len() != fields_model(b@).len());
        return false;
    }
    let mut i: usize = 0;
    while i < a.len()
        invariant
            a.len() == b.len(),
            i <= a.len(),
            forall|j: int| 0 <= j < i ==> a@[j].0@ == b@[j].0@ && a@[j].1@ == b@[j].1@,
        decreases a.len() - i,
    {
        if !a[i].0.same(&b[i].0) || !a[i].1.same(&b[i].1) {
            assert(fields_model(a@)[i as int] != fields_model(b@)[i as int]);
            return false;
        }
        i += 1;
    }
    assert(fields_model(a@) =~= fields_model(b@));
    true
}

/// Whether both lists hold the same schemas in the same order.
pub fn same_types(a: &Vec<MenuType>, b: &Vec<MenuType>) -> (r: bool)
    ensures
        r == (types_model(a@) == types_model(b@)),
    decreases a,
{
    if a.len() != b.len() {
        assert(types_model(a@).len() != types_model(b@).len());
        return false;
    }
    let mut i: usize = 0;
    while i < a.len()
        invariant
            a.len() == b.len(),
            i <= a.len(),
            forall|j: int| 0 <= j < i ==> a@[j]@ == b@[j]@,
        decreases a.len() - i,
    {
        if !a[i].same(&b[i]) {
            assert(types_model(a@)[i as int] != types_model(b@)[i as int]);
            return false;
        }
        i += 1;
    }
    assert(types_model(a@) =~= types_model(b@));
    true
}

impl MenuType {
    /// Whether both stand for the same schema.
    pub fn same(&self, other: &MenuType) -> (r: bool)
        ensures
            r == (self@ == other@),
        decreases self,
    {
        match (self, other) {
            (MenuType::Prim(a), MenuType::Prim(b)) => *a == *b,
            (MenuType::Variant(a), MenuType::Variant(b)) => same_fields(a, b),
            (MenuType::Product(a), MenuType::Product(b)) => same_fields(a, b),
            (MenuType::Option(a), MenuType::Option(b)) => a.same(b),
            (MenuType::Vec(a), MenuType::Vec(b)) => a.same(b),
            (MenuType::Tup(a), MenuType::Tup(b)) => same_types(a, b),
            (MenuType::Var(a), MenuType::Var(b)) => a.same(b),
            (MenuType::Func(a), MenuType::Func(b)) => same_types(&a.args, &b.args) && same_types(
                &a.rets,
                &b.rets,
            ),
            _ => false,
        }
    }
}

impl PartialEq for MenuType {
    fn eq(&self, other: &MenuType) -> (r: bool) {
        self.same(other)
    }
}

impl PartialEqSpecImpl for MenuType {
    open spec fn obeys_eq_spec() -> bool {
        true
    }

    open spec fn eq_spec(&self, other: &MenuType) -> bool {
        self@ == other@
    }
}

impl Eq for MenuType {

}

/// Whether both lists hold the same arms in the same order.
pub fn same_arms(a: &Vec<(Label, MenuTree, MenuType)>, b: &Vec<(Label, MenuTree, MenuType)>) -> (r:
    bool)
    ensures
        r == (arms_model(a@) == arms_model(b@)),
    decreases a,
{
    if a.len() != b.len() {
        assert(arms_model(a@).len() != arms_model(b@).len());
        return false;
    }
    let mut i: usize = 0;
    while i < a.len()
        invariant
            a.len() == b.len(),
            i <= a.len(),
            forall|j: int|
                0 <= j < i ==> a@[j].0@ == b@[j].0@ && a@[j].1@ == b@[j].1@ && a@[j].2@ == b@[j].2@,
        decreases a.len() - i,
    {
        if !a[i].0.same(&b[i].0) || !a[i].1.same(&b[i].1) || !a[i].2.same(&b[i].2) {
            assert(arms_model(a@)[i as int] != arms_model(b@)[i as int]);
            return false;
        }
        i += 1;
    }
    assert(arms_model(a@) =~= arms_model(b@));
    true
}

/// Whether both lists hold the same slots in the same order.
pub fn same_slots(a: &Vec<(MenuTree, MenuType)>, b: &Vec<(MenuTree, MenuType)>) -> (r: bool)
    ensures
        r == (slots_model(a@) == slots_model(b@)),
    decreases a,
{
    if a.len() != b.len() {
        assert(slots_model(a@).len() != slots_model(b@).len());
        return false;
    }
    let mut i: usize = 0;
    while i < a.len()
        invariant
            a.len() == b.len(),
            i <= a.len(),
            forall|j: int| 0 <= j < i ==> a@[j].0@ == b@[j].0@ && a@[j].1@ == b@[j].1@,
        decreases a.len() - i,
    {
        if !a[i].0.same(&b[i].0) || !a[i].1.same(&b[i].1) {
            assert(slots_model(a@)[i as int] != slots_model(b@)[i as int]);
            return false;
        }
        i += 1;
    }
    assert(slots_model(a@) =~= slots_model(b@));
    true
}

/// Whether both lists hold the same trees in the same order.
pub fn same_trees(a: &Vec<MenuTree>, b: &Vec<MenuTree>) -> (r: bool)
    ensures
        r == (trees_model(a@) == trees_model(b@)),
    decreases a,
{
    if a.len() != b.len() {
        assert(trees_model(a@).len() != trees_model(b@).len());
        return false;
    }
    let mut i: usize = 0;
    while i < a.len()
        invariant
            a.len() == b.len(),
            i <= a.len(),
            forall|j: int| 0 <= j < i ==> a@[j]@ == b@[j]@,
        decreases a.len() - i,
    {
        if !a[i].same(&b[i]) {
            assert(trees_model(a@)[i as int] != trees_model(b@)[i as int]);
            return false;
        }
        i += 1;
    }
    assert(trees_model(a@) =~= trees_model(b@));
    true
}

impl MenuTree {
    /// Whether both stand for the same tree.
    pub fn same(&self, other: &MenuTree) -> (r: bool)
        ensures
            r == (self@ == other@),
        decreases self,
    {
        match (self, other) {
            (MenuTree::Product(a), MenuTree::Product(b)) => same_arms(a, b),
            (MenuTree::Variant(a), MenuTree::Variant(b)) => {
                let chosen = match (&a.choice, &b.choice) {
                    (Some(x), Some(y)) => x.0.same(&y.0) && x.1.same(&y.1) && x.2.same(&y.2),
                    (None, None) => true,
                    _ => false,
                };
                assert(chosen == (opt_arm_model(a.choice) == opt_arm_model(b.choice)));
                chosen && same_arms(&a.before, &b.before) && same_arms(&a.after, &b.after)
            },
            (MenuTree::Option(p, a, s), MenuTree::Option(q, b, t)) => *p == *q && a.same(b)
                && s.same(t),
            (MenuTree::Vec(a, s), MenuTree::Vec(b, t)) => same_trees(a, b) && s.same(t),
            (MenuTree::Tup(a), MenuTree::Tup(b)) => same_slots(a, b),
            (MenuTree::Blank(s), MenuTree::Blank(t)) => s.same(t),
            (MenuTree::Nat(a), MenuTree::Nat(b)) => *a == *b,
            (MenuTree::Int(a), MenuTree::Int(b)) => *a == *b,
            (MenuTree::Text(a), MenuTree::Text(b)) => *a == *b,
            (MenuTree::Bool(a), MenuTree::Bool(b)) => *a == *b,
            (MenuTree::Unit, MenuTree::Unit) => true,
            (MenuTree::Null, MenuTree::Null) => true,
            _ => false,
        }
    }
}

impl PartialEq for MenuTree {
    fn eq(&self, other: &MenuTree) -> (r: bool) {
        self.same(other)
    }
}

impl PartialEqSpecImpl for MenuTree {
    open spec fn obeys_eq_spec() -> bool {
        true
    }

    open spec fn eq_spec(&self, other: &MenuTree) -> bool {
        self@ == other@
    }
}

impl Eq for MenuTree {

}

} // verus!
