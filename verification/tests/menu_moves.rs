use zqm_engine::menu::check::{are_mergeable, is_complete, state_is_wf, tree_conforms};
use zqm_engine::menu::semantics::{
    accept_variant, ascend, assert_tree_tag, auto_fill, climb, ctx_tag, cycle_variant, descend,
    enter, goto_root, next_blank, next_sibling, next_tree, prev_blank, prev_sibling, prev_tree,
    state_eval_command, tree_tag, tree_union, typ_tag,
};
use zqm_engine::menu::{
    EditCommand, EditError, FuncType, Halt, LabelChoice, MenuCtx, MenuState, MenuTree, MenuType,
    PrimType, Tag,
};
use zqm_engine::types::lang::{Atom, Dir1D, Name};

fn label(s: &str) -> Name {
    Name::Atom(Atom::String(s.to_string()))
}

fn prim(p: PrimType) -> MenuType {
    MenuType::Prim(p)
}

fn start(tree: MenuTree, typ: MenuType) -> MenuState {
    assert!(tree_conforms(&tree, &typ));
    let st = MenuState {
        root_typ: std::rc::Rc::new(typ.clone()),
        ctx: MenuCtx::Root(typ.clone()),
        tree,
        tree_typ: typ,
    };
    assert!(state_is_wf(&st));
    st
}

fn fails_with(r: Result<(), Halt>, e: EditError) {
    match r {
        Err(Halt::Message(got)) => assert_eq!(got, e),
        Err(Halt::Commit(_)) => panic!("expected {:?}, got a commit", e),
        Ok(()) => panic!("expected {:?}, got success", e),
    }
}

fn abc_type() -> MenuType {
    MenuType::Product(vec![
        (label("a"), prim(PrimType::Text)),
        (label("b"), prim(PrimType::Bool)),
        (label("c"), prim(PrimType::Unit)),
    ])
}

fn abc() -> MenuTree {
    MenuTree::Product(vec![
        (label("a"), MenuTree::Text("x".to_string()), prim(PrimType::Text)),
        (label("b"), MenuTree::Bool(true), prim(PrimType::Bool)),
        (label("c"), MenuTree::Unit, prim(PrimType::Unit)),
    ])
}

fn three_arm_type() -> MenuType {
    MenuType::Variant(vec![
        (label("x"), prim(PrimType::Nat)),
        (label("y"), prim(PrimType::Text)),
        (label("z"), prim(PrimType::Bool)),
    ])
}

fn nested_type() -> MenuType {
    MenuType::Tup(vec![
        MenuType::Option(Box::new(prim(PrimType::Text))),
        MenuType::Vec(Box::new(prim(PrimType::Bool))),
        abc_type(),
    ])
}

fn nested() -> MenuTree {
    MenuTree::Tup(vec![
        (
            MenuTree::Option(
                true,
                Box::new(MenuTree::Text("t".to_string())),
                prim(PrimType::Text),
            ),
            MenuType::Option(Box::new(prim(PrimType::Text))),
        ),
        (
            MenuTree::Vec(
                vec![MenuTree::Bool(true), MenuTree::Bool(false)],
                prim(PrimType::Bool),
            ),
            MenuType::Vec(Box::new(prim(PrimType::Bool))),
        ),
        (abc(), abc_type()),
    ])
}

#[test]
fn tags_of_trees_contexts_and_types() {
    assert_eq!(tree_tag(&abc()), Tag::Product);
    assert_eq!(tree_tag(&MenuTree::Nat(3)), Tag::Prim(PrimType::Nat));
    assert_eq!(tree_tag(&MenuTree::Blank(abc_type())), Tag::Blank);
    assert_eq!(tree_tag(&MenuTree::Null), Tag::Prim(PrimType::Null));
    assert_eq!(typ_tag(&abc_type()), Tag::Product);
    assert_eq!(typ_tag(&MenuType::Var(label("v"))), Tag::Var);
    assert_eq!(
        typ_tag(&MenuType::Func(FuncType { args: vec![], rets: vec![] })),
        Tag::Func
    );
    assert_eq!(typ_tag(&prim(PrimType::Int)), Tag::Prim(PrimType::Int));
    let mut st = start(abc(), abc_type());
    assert_eq!(ctx_tag(&st.ctx), Tag::Root);
    assert!(descend(&mut st, Dir1D::Forward).is_ok());
    assert_eq!(ctx_tag(&st.ctx), Tag::Product);
    assert!(assert_tree_tag(&abc(), &Tag::Product).is_ok());
    fails_with(assert_tree_tag(&abc(), &Tag::Vec), EditError::WrongTag);
}

#[test]
fn ascend_at_root_fails_and_changes_nothing() {
    let mut st = start(abc(), abc_type());
    fails_with(ascend(&mut st), EditError::AtRoot);
    assert_eq!(st.tree, abc());
    assert!(matches!(st.ctx, MenuCtx::Root(_)));
}

#[test]
fn descend_forward_takes_the_first_and_backward_the_last() {
    let mut st = start(abc(), abc_type());
    assert!(descend(&mut st, Dir1D::Forward).is_ok());
    assert_eq!(st.tree, MenuTree::Text("x".to_string()));
    assert_eq!(st.tree_typ, prim(PrimType::Text));
    match &st.ctx {
        MenuCtx::Product(sel) => {
            assert_eq!(sel.label, label("a"));
            assert_eq!(sel.before.len(), 0);
            assert_eq!(sel.after.len(), 2);
            assert_eq!(sel.after[0].0, label("b"));
            assert_eq!(sel.after[1].0, label("c"));
        }
        _ => panic!("expected a record frame"),
    }
    let mut st = start(abc(), abc_type());
    assert!(descend(&mut st, Dir1D::Backward).is_ok());
    assert_eq!(st.tree, MenuTree::Unit);
    match &st.ctx {
        MenuCtx::Product(sel) => {
            assert_eq!(sel.label, label("c"));
            assert_eq!(sel.before.len(), 2);
            assert_eq!(sel.before[0].0, label("a"));
            assert_eq!(sel.before[1].0, label("b"));
            assert_eq!(sel.after.len(), 0);
        }
        _ => panic!("expected a record frame"),
    }
}

#[test]
fn descend_then_ascend_is_the_identity() {
    for dir in [Dir1D::Forward, Dir1D::Backward] {
        for (tree, typ) in [(abc(), abc_type()), (nested(), nested_type())] {
            let mut st = start(tree.clone(), typ.clone());
            assert!(descend(&mut st, dir).is_ok());
            assert!(ascend(&mut st).is_ok());
            assert_eq!(st.tree, tree);
            assert_eq!(st.tree_typ, typ);
            assert!(matches!(st.ctx, MenuCtx::Root(_)));
        }
    }
    // One level down too: into the option, the sequence and the record.
    let mut st = start(nested(), nested_type());
    assert!(descend(&mut st, Dir1D::Forward).is_ok());
    for _ in 0..3 {
        let tree = st.tree.clone();
        let typ = st.tree_typ.clone();
        assert!(enter(&mut st, Dir1D::Forward).is_ok());
        assert!(ascend(&mut st).is_ok());
        assert_eq!(st.tree, tree);
        assert_eq!(st.tree_typ, typ);
        assert!(next_sibling(&mut st).is_ok());
    }
}

#[test]
fn descend_into_option_and_sequence() {
    let mut st = start(nested(), nested_type());
    assert!(descend(&mut st, Dir1D::Forward).is_ok());
    assert!(descend(&mut st, Dir1D::Forward).is_ok());
    assert_eq!(st.tree, MenuTree::Text("t".to_string()));
    assert!(matches!(st.ctx, MenuCtx::Option(true, _)));
    assert!(ascend(&mut st).is_ok());
    assert!(next_sibling(&mut st).is_ok());
    assert!(descend(&mut st, Dir1D::Backward).is_ok());
    assert_eq!(st.tree, MenuTree::Bool(false));
    assert_eq!(st.tree_typ, prim(PrimType::Bool));
    match &st.ctx {
        MenuCtx::Vec(sel) => {
            assert_eq!(sel.before.len(), 1);
            assert_eq!(sel.before[0].0, MenuTree::Bool(true));
            assert_eq!(sel.before[0].1, prim(PrimType::Bool));
            assert_eq!(sel.after.len(), 0);
        }
        _ => panic!("expected a sequence frame"),
    }
    assert!(state_is_wf(&st));
}

#[test]
fn descend_fails_on_blank_empty_and_leaf() {
    let mut st = start(MenuTree::Blank(abc_type()), abc_type());
    fails_with(descend(&mut st, Dir1D::Forward), EditError::NoSubtree);
    let mut st = start(MenuTree::Product(vec![]), MenuType::Product(vec![]));
    fails_with(descend(&mut st, Dir1D::Forward), EditError::NoSubtree);
    let mut st = start(MenuTree::Tup(vec![]), MenuType::Tup(vec![]));
    fails_with(descend(&mut st, Dir1D::Backward), EditError::NoSubtree);
    let mut st = start(
        MenuTree::Vec(vec![], prim(PrimType::Nat)),
        MenuType::Vec(Box::new(prim(PrimType::Nat))),
    );
    fails_with(descend(&mut st, Dir1D::Forward), EditError::NoSubtree);
    for (tree, p) in [
        (MenuTree::Text("s".to_string()), PrimType::Text),
        (MenuTree::Bool(false), PrimType::Bool),
        (MenuTree::Unit, PrimType::Unit),
        (MenuTree::Null, PrimType::Null),
    ] {
        let mut st = start(tree.clone(), prim(p));
        fails_with(descend(&mut st, Dir1D::Forward), EditError::NotImplemented);
        assert_eq!(st.tree, tree);
    }
}

#[test]
fn descend_on_a_number_adds_one() {
    let mut st = start(MenuTree::Nat(41), prim(PrimType::Nat));
    assert!(descend(&mut st, Dir1D::Forward).is_ok());
    assert_eq!(st.tree, MenuTree::Nat(42));
    assert!(matches!(st.ctx, MenuCtx::Root(_)));
    let mut st = start(MenuTree::Int(-1), prim(PrimType::Int));
    assert!(descend(&mut st, Dir1D::Backward).is_ok());
    assert_eq!(st.tree, MenuTree::Int(0));
    // `enter` does not spin.
    let mut st = start(MenuTree::Nat(41), prim(PrimType::Nat));
    fails_with(enter(&mut st, Dir1D::Forward), EditError::NotImplemented);
    assert_eq!(st.tree, MenuTree::Nat(41));
}

#[test]
fn descend_on_the_largest_number_overflows() {
    let mut st = start(MenuTree::Nat(usize::MAX), prim(PrimType::Nat));
    fails_with(descend(&mut st, Dir1D::Forward), EditError::Overflow);
    assert_eq!(st.tree, MenuTree::Nat(usize::MAX));
    let mut st = start(MenuTree::Int(isize::MAX), prim(PrimType::Int));
    fails_with(descend(&mut st, Dir1D::Forward), EditError::Overflow);
    assert_eq!(st.tree, MenuTree::Int(isize::MAX));
}

#[test]
fn siblings_go_round() {
    let mut st = start(abc(), abc_type());
    assert!(descend(&mut st, Dir1D::Forward).is_ok());
    assert!(next_sibling(&mut st).is_ok());
    assert_eq!(st.tree, MenuTree::Bool(true));
    assert!(next_sibling(&mut st).is_ok());
    assert_eq!(st.tree, MenuTree::Unit);
    match &st.ctx {
        MenuCtx::Product(sel) => {
            assert_eq!(sel.before.len(), 2);
            assert_eq!(sel.before[0].0, label("a"));
            assert_eq!(sel.before[1].0, label("b"));
        }
        _ => panic!("expected a record frame"),
    }
    assert!(next_sibling(&mut st).is_ok());
    assert_eq!(st.tree, MenuTree::Text("x".to_string()));
    assert!(prev_sibling(&mut st).is_ok());
    assert_eq!(st.tree, MenuTree::Unit);
    assert!(prev_sibling(&mut st).is_ok());
    assert_eq!(st.tree, MenuTree::Bool(true));
    match &st.ctx {
        MenuCtx::Product(sel) => {
            assert_eq!(sel.label, label("b"));
            assert_eq!(sel.before.len(), 1);
            assert_eq!(sel.after.len(), 1);
            assert_eq!(sel.after[0].0, label("c"));
        }
        _ => panic!("expected a record frame"),
    }
    assert!(goto_root(&mut st).is_ok());
    assert_eq!(st.tree, abc());
}

#[test]
fn sibling_at_root_and_in_an_option_stays() {
    let mut st = start(abc(), abc_type());
    assert!(next_sibling(&mut st).is_ok());
    assert_eq!(st.tree, abc());
    assert!(prev_sibling(&mut st).is_ok());
    assert_eq!(st.tree, abc());
    let mut st = start(nested(), nested_type());
    assert!(descend(&mut st, Dir1D::Forward).is_ok());
    assert!(descend(&mut st, Dir1D::Forward).is_ok());
    assert!(next_sibling(&mut st).is_ok());
    assert_eq!(st.tree, MenuTree::Text("t".to_string()));
    assert!(matches!(st.ctx, MenuCtx::Option(true, _)));
}

fn chosen_union() -> (MenuTree, MenuType) {
    let typ = MenuType::Tup(vec![three_arm_type(), prim(PrimType::Unit)]);
    let tree = MenuTree::Tup(vec![
        (
            MenuTree::Variant(Box::new(LabelChoice {
                before: vec![(label("x"), MenuTree::Nat(1), prim(PrimType::Nat))],
                choice: Some((
                    label("y"),
                    MenuTree::Text("why".to_string()),
                    prim(PrimType::Text),
                )),
                after: vec![(label("z"), MenuTree::Bool(true), prim(PrimType::Bool))],
            })),
            three_arm_type(),
        ),
        (MenuTree::Unit, prim(PrimType::Unit)),
    ]);
    (tree, typ)
}

#[test]
fn sibling_in_a_union_frame_moves_one_level_up() {
    let (tree, typ) = chosen_union();
    let mut st = start(tree, typ);
    assert!(descend(&mut st, Dir1D::Forward).is_ok());
    assert!(descend(&mut st, Dir1D::Forward).is_ok());
    assert_eq!(st.tree, MenuTree::Text("why".to_string()));
    assert!(matches!(st.ctx, MenuCtx::Variant(_)));
    assert!(next_sibling(&mut st).is_ok());
    assert_eq!(st.tree, MenuTree::Unit);
    assert!(matches!(st.ctx, MenuCtx::Tup(_)));
    assert!(state_is_wf(&st));
}

#[test]
fn cycling_forward_visits_every_arm_and_comes_back() {
    let typ = three_arm_type();
    let mut st = start(auto_fill(&typ, 1), typ.clone());
    let origin = st.tree.clone();
    let mut seen = vec![];
    for step in 0..4 {
        assert!(cycle_variant(&mut st, Dir1D::Forward).is_ok());
        assert!(tree_conforms(&st.tree, &typ));
        match &st.tree {
            MenuTree::Variant(c) => {
                assert_eq!(c.before.len() + c.after.len() + c.choice.iter().count(), 3);
                if let Some((l, _, _)) = &c.choice {
                    seen.push(l.clone());
                    assert_eq!(c.before.len(), step);
                }
            }
            _ => panic!("expected a union"),
        }
    }
    assert_eq!(seen, vec![label("x"), label("y"), label("z")]);
    assert_eq!(st.tree, origin);
}

#[test]
fn cycling_from_a_chosen_arm_closes_after_four_steps() {
    let (tree, typ) = chosen_union();
    let mut st = start(tree, typ);
    assert!(descend(&mut st, Dir1D::Forward).is_ok());
    let origin = st.tree.clone();
    for n in 1..=4 {
        assert!(cycle_variant(&mut st, Dir1D::Forward).is_ok());
        if n < 4 {
            assert!(st.tree != origin);
        }
    }
    assert_eq!(st.tree, origin);
}

#[test]
fn cycling_backward_mirrors_forward() {
    let typ = three_arm_type();
    let mut st = start(auto_fill(&typ, 1), typ.clone());
    assert!(cycle_variant(&mut st, Dir1D::Backward).is_ok());
    match &st.tree {
        MenuTree::Variant(c) => {
            assert_eq!(c.before.len(), 3);
            assert!(c.choice.is_none());
            assert_eq!(c.after.len(), 0);
        }
        _ => panic!("expected a union"),
    }
    assert!(cycle_variant(&mut st, Dir1D::Backward).is_ok());
    match &st.tree {
        MenuTree::Variant(c) => {
            assert_eq!(c.before.len(), 2);
            assert_eq!(c.choice.as_ref().unwrap().0, label("z"));
            assert_eq!(c.after.len(), 0);
        }
        _ => panic!("expected a union"),
    }
    assert!(cycle_variant(&mut st, Dir1D::Backward).is_ok());
    match &st.tree {
        MenuTree::Variant(c) => {
            assert_eq!(c.before.len(), 1);
            assert_eq!(c.choice.as_ref().unwrap().0, label("y"));
            assert_eq!(c.after.len(), 1);
            assert_eq!(c.after[0].0, label("z"));
        }
        _ => panic!("expected a union"),
    }
    assert!(cycle_variant(&mut st, Dir1D::Forward).is_ok());
    match &st.tree {
        MenuTree::Variant(c) => {
            assert_eq!(c.choice.as_ref().unwrap().0, label("z"));
            assert_eq!(c.before.len(), 2);
            assert_eq!(c.before[1].0, label("y"));
        }
        _ => panic!("expected a union"),
    }
    assert!(tree_conforms(&st.tree, &typ));
}

#[test]
fn cycling_and_accepting_need_a_union() {
    let mut st = start(abc(), abc_type());
    fails_with(cycle_variant(&mut st, Dir1D::Forward), EditError::WrongTag);
    fails_with(accept_variant(&mut st), EditError::WrongTag);
    assert_eq!(st.tree, abc());
    let typ = three_arm_type();
    let mut st = start(auto_fill(&typ, 1), typ);
    fails_with(accept_variant(&mut st), EditError::NoChosenArm);
    assert!(cycle_variant(&mut st, Dir1D::Forward).is_ok());
    fails_with(accept_variant(&mut st), EditError::AtRoot);
}

#[test]
fn the_walk_visits_every_node_in_pre_order() {
    let mut st = start(nested(), nested_type());
    let mut seen = vec![tree_tag(&st.tree)];
    while next_tree(&mut st).is_ok() {
        seen.push(tree_tag(&st.tree));
        assert!(state_is_wf(&st));
    }
    assert_eq!(
        seen,
        vec![
            Tag::Tup,
            Tag::Option,
            Tag::Prim(PrimType::Text),
            Tag::Vec,
            Tag::Prim(PrimType::Bool),
            Tag::Prim(PrimType::Bool),
            Tag::Product,
            Tag::Prim(PrimType::Text),
            Tag::Prim(PrimType::Bool),
            Tag::Prim(PrimType::Unit),
        ]
    );
    // At the end the walk is exhausted and the cursor stays on the last node.
    assert_eq!(st.tree, MenuTree::Unit);
    fails_with(next_tree(&mut st), EditError::Exhausted);
    assert_eq!(st.tree, MenuTree::Unit);
    fails_with(climb(&mut st, Dir1D::Forward), EditError::Exhausted);
}

#[test]
fn the_backward_walk_is_the_mirror_image() {
    let mut st = start(nested(), nested_type());
    let mut seen = vec![tree_tag(&st.tree)];
    while prev_tree(&mut st).is_ok() {
        seen.push(tree_tag(&st.tree));
    }
    assert_eq!(
        seen,
        vec![
            Tag::Tup,
            Tag::Product,
            Tag::Prim(PrimType::Unit),
            Tag::Prim(PrimType::Bool),
            Tag::Prim(PrimType::Text),
            Tag::Vec,
            Tag::Prim(PrimType::Bool),
            Tag::Prim(PrimType::Bool),
            Tag::Option,
            Tag::Prim(PrimType::Text),
        ]
    );
    fails_with(prev_tree(&mut st), EditError::Exhausted);
}

#[test]
fn the_walk_does_not_spin_numbers() {
    let typ = MenuType::Tup(vec![prim(PrimType::Nat), prim(PrimType::Int)]);
    let tree = MenuTree::Tup(vec![
        (MenuTree::Nat(7), prim(PrimType::Nat)),
        (MenuTree::Int(-7), prim(PrimType::Int)),
    ]);
    let mut st = start(tree.clone(), typ);
    assert!(next_tree(&mut st).is_ok());
    assert_eq!(st.tree, MenuTree::Nat(7));
    assert!(next_tree(&mut st).is_ok());
    assert_eq!(st.tree, MenuTree::Int(-7));
    fails_with(next_tree(&mut st), EditError::Exhausted);
    assert!(goto_root(&mut st).is_ok());
    assert_eq!(st.tree, tree);
}

#[test]
fn next_blank_on_a_full_tree_is_exhausted() {
    for (tree, typ) in [(abc(), abc_type()), (nested(), nested_type())] {
        assert!(is_complete(&tree));
        let mut st = start(tree.clone(), typ);
        match next_blank(&mut st) {
            Err(Halt::Message(e)) => assert_eq!(e, EditError::Exhausted),
            _ => panic!("expected exhaustion"),
        }
        assert_eq!(st.tree, tree);
        assert!(matches!(st.ctx, MenuCtx::Root(_)));
        match prev_blank(&mut st) {
            Err(Halt::Message(e)) => assert_eq!(e, EditError::Exhausted),
            _ => panic!("expected exhaustion"),
        }
        assert_eq!(st.tree, tree);
    }
}

#[test]
fn next_blank_from_inside_is_exhausted_and_stays() {
    let mut st = start(nested(), nested_type());
    assert!(next_tree(&mut st).is_ok());
    assert!(next_tree(&mut st).is_ok());
    assert_eq!(st.tree, MenuTree::Text("t".to_string()));
    assert!(next_blank(&mut st).is_err());
    assert_eq!(st.tree, MenuTree::Text("t".to_string()));
    assert!(matches!(st.ctx, MenuCtx::Option(true, _)));
}

#[test]
fn next_blank_finds_the_first_blank_and_its_schema() {
    let typ = MenuType::Tup(vec![
        prim(PrimType::Text),
        abc_type(),
        MenuType::Var(label("later")),
    ]);
    let tree = MenuTree::Tup(vec![
        (MenuTree::Text("t".to_string()), prim(PrimType::Text)),
        (MenuTree::Blank(abc_type()), abc_type()),
        (
            MenuTree::Blank(MenuType::Var(label("later"))),
            MenuType::Var(label("later")),
        ),
    ]);
    assert!(!is_complete(&tree));
    let mut st = start(tree, typ);
    assert_eq!(next_blank(&mut st).ok(), Some(abc_type()));
    assert_eq!(st.tree, MenuTree::Blank(abc_type()));
    // Already on a blank: the cursor stays.
    assert_eq!(next_blank(&mut st).ok(), Some(abc_type()));
    match &st.ctx {
        MenuCtx::Tup(sel) => assert_eq!((sel.before.len(), sel.after.len()), (1, 1)),
        _ => panic!("expected a tuple frame"),
    }
    assert!(next_tree(&mut st).is_ok());
    assert_eq!(next_blank(&mut st).ok(), Some(MenuType::Var(label("later"))));
    assert!(goto_root(&mut st).is_ok());
    assert_eq!(prev_blank(&mut st).ok(), Some(MenuType::Var(label("later"))));
}

#[test]
fn the_walk_skips_the_arms_that_are_not_chosen() {
    let typ = three_arm_type();
    let tree = MenuTree::Variant(Box::new(LabelChoice {
        before: vec![(label("x"), MenuTree::Blank(prim(PrimType::Nat)), prim(PrimType::Nat))],
        choice: Some((
            label("y"),
            MenuTree::Text("".to_string()),
            prim(PrimType::Text),
        )),
        after: vec![(label("z"), MenuTree::Bool(true), prim(PrimType::Bool))],
    }));
    assert!(!is_complete(&tree));
    let mut st = start(tree, typ);
    assert!(next_blank(&mut st).is_err());
    assert!(next_tree(&mut st).is_ok());
    assert_eq!(st.tree, MenuTree::Text("".to_string()));
    fails_with(next_tree(&mut st), EditError::Exhausted);
}

#[test]
fn auto_fill_of_every_kind_of_schema() {
    assert_eq!(auto_fill(&prim(PrimType::Unit), 0), MenuTree::Unit);
    assert_eq!(auto_fill(&prim(PrimType::Null), 3), MenuTree::Null);
    assert_eq!(auto_fill(&prim(PrimType::Nat), 0), MenuTree::Nat(0));
    assert_eq!(auto_fill(&prim(PrimType::Int), 1), MenuTree::Int(0));
    assert_eq!(auto_fill(&prim(PrimType::Text), 1), MenuTree::Text("".to_string()));
    assert_eq!(auto_fill(&prim(PrimType::Bool), 2), MenuTree::Bool(false));
    assert_eq!(auto_fill(&abc_type(), 0), MenuTree::Blank(abc_type()));
    let var = MenuType::Var(label("v"));
    assert_eq!(auto_fill(&var, 5), MenuTree::Blank(var.clone()));
    let func = MenuType::Func(FuncType { args: vec![var.clone()], rets: vec![] });
    assert_eq!(auto_fill(&func, 5), MenuTree::Blank(func.clone()));
    let seq = MenuType::Vec(Box::new(abc_type()));
    assert_eq!(auto_fill(&seq, 1), MenuTree::Vec(vec![], abc_type()));
    assert_eq!(
        auto_fill(&seq, 2),
        MenuTree::Vec(vec![auto_fill(&abc_type(), 1)], abc_type())
    );
    let opt = MenuType::Option(Box::new(seq.clone()));
    assert_eq!(
        auto_fill(&opt, 1),
        MenuTree::Option(false, Box::new(MenuTree::Blank(seq.clone())), seq.clone())
    );
    assert_eq!(
        auto_fill(&nested_type(), 1),
        MenuTree::Tup(vec![
            (
                MenuTree::Blank(MenuType::Option(Box::new(prim(PrimType::Text)))),
                MenuType::Option(Box::new(prim(PrimType::Text)))
            ),
            (
                MenuTree::Blank(MenuType::Vec(Box::new(prim(PrimType::Bool)))),
                MenuType::Vec(Box::new(prim(PrimType::Bool)))
            ),
            (MenuTree::Blank(abc_type()), abc_type()),
        ])
    );
    assert_eq!(
        auto_fill(&abc_type(), 1),
        MenuTree::Product(vec![
            (label("a"), MenuTree::Text("".to_string()), prim(PrimType::Text)),
            (label("b"), MenuTree::Bool(false), prim(PrimType::Bool)),
            (label("c"), MenuTree::Unit, prim(PrimType::Unit)),
        ])
    );
    for d in 0..4 {
        for t in [abc_type(), nested_type(), three_arm_type(), opt.clone(), func.clone()] {
            assert!(tree_conforms(&auto_fill(&t, d), &t));
        }
    }
}

#[test]
fn auto_fill_of_a_union_has_every_arm_and_none_chosen() {
    match auto_fill(&three_arm_type(), 1) {
        MenuTree::Variant(c) => {
            assert_eq!(c.before.len() + c.after.len(), 3);
            assert!(c.choice.is_none());
            assert_eq!(c.before.len(), 0);
            assert_eq!(c.after[0], (label("x"), MenuTree::Nat(0), prim(PrimType::Nat)));
            assert_eq!(
                c.after[1],
                (label("y"), MenuTree::Text("".to_string()), prim(PrimType::Text))
            );
            assert_eq!(c.after[2], (label("z"), MenuTree::Bool(false), prim(PrimType::Bool)));
        }
        _ => panic!("expected a union"),
    }
}

#[test]
fn merging_with_a_blank_gives_the_other_tree() {
    for (tree, typ) in [
        (abc(), abc_type()),
        (nested(), nested_type()),
        (MenuTree::Nat(9), prim(PrimType::Nat)),
        (MenuTree::Blank(abc_type()), abc_type()),
    ] {
        let blank = MenuTree::Blank(typ.clone());
        assert_eq!(tree_union(&blank, &tree), tree);
        assert_eq!(tree_union(&tree, &blank), tree);
    }
}

#[test]
fn merging_records_goes_field_by_field() {
    let text = prim(PrimType::Text);
    let typ = MenuType::Product(vec![
        (label("p"), text.clone()),
        (label("q"), text.clone()),
        (label("r"), text.clone()),
    ]);
    let one = MenuTree::Product(vec![
        (label("p"), MenuTree::Text("one".to_string()), text.clone()),
        (label("q"), MenuTree::Blank(text.clone()), text.clone()),
        (label("r"), MenuTree::Text("one".to_string()), text.clone()),
    ]);
    let two = MenuTree::Product(vec![
        (label("p"), MenuTree::Blank(text.clone()), text.clone()),
        (label("q"), MenuTree::Text("two".to_string()), text.clone()),
        (label("r"), MenuTree::Text("two".to_string()), text.clone()),
    ]);
    assert!(tree_conforms(&one, &typ) && tree_conforms(&two, &typ));
    assert_eq!(
        tree_union(&one, &two),
        MenuTree::Product(vec![
            (label("p"), MenuTree::Text("one".to_string()), text.clone()),
            (label("q"), MenuTree::Text("two".to_string()), text.clone()),
            (label("r"), MenuTree::Text("two".to_string()), text.clone()),
        ])
    );
}

#[test]
fn merging_other_shapes_takes_the_second() {
    assert_eq!(tree_union(&MenuTree::Nat(1), &MenuTree::Nat(2)), MenuTree::Nat(2));
    assert_eq!(tree_union(&abc(), &MenuTree::Unit), MenuTree::Unit);
    assert_eq!(tree_union(&MenuTree::Unit, &abc()), abc());
    let (with_choice, _) = chosen_union();
    let fresh = auto_fill(&nested_type(), 1);
    assert_eq!(tree_union(&with_choice, &fresh), fresh);
}

#[test]
fn the_auto_fill_command_merges_and_clear_blanks() {
    let mut st = start(MenuTree::Blank(abc_type()), abc_type());
    assert!(state_eval_command(&mut st, &EditCommand::AutoFill).is_ok());
    assert_eq!(st.tree, auto_fill(&abc_type(), 1));
    // A number in focus is overwritten by the zero of the fill.
    let mut st = start(MenuTree::Nat(5), prim(PrimType::Nat));
    assert!(state_eval_command(&mut st, &EditCommand::AutoFill).is_ok());
    assert_eq!(st.tree, MenuTree::Nat(0));
    // A record keeps what it has where the fill is blank.
    let typ = MenuType::Product(vec![(label("in"), abc_type())]);
    let tree = MenuTree::Product(vec![(label("in"), abc(), abc_type())]);
    let mut st = start(tree.clone(), typ);
    assert!(state_eval_command(&mut st, &EditCommand::AutoFill).is_ok());
    assert_eq!(st.tree, tree);
    assert!(state_eval_command(&mut st, &EditCommand::Clear).is_ok());
    assert_eq!(st.tree, MenuTree::Blank(st.tree_typ.clone()));
    assert!(state_is_wf(&st));
}

#[test]
fn inserting_into_a_sequence_is_not_implemented() {
    let mut st = start(abc(), abc_type());
    fails_with(state_eval_command(&mut st, &EditCommand::VecInsertBlank), EditError::WrongTag);
    fails_with(state_eval_command(&mut st, &EditCommand::VecInsertAuto), EditError::WrongTag);
    let typ = MenuType::Vec(Box::new(prim(PrimType::Nat)));
    let mut st = start(auto_fill(&typ, 1), typ);
    fails_with(
        state_eval_command(&mut st, &EditCommand::VecInsertBlank),
        EditError::NotImplemented,
    );
    fails_with(
        state_eval_command(&mut st, &EditCommand::VecInsertAuto),
        EditError::NotImplemented,
    );
}

#[test]
fn commit_ascends_and_hands_the_tree_over() {
    let mut st = start(nested(), nested_type());
    assert!(prev_tree(&mut st).is_ok());
    assert!(prev_tree(&mut st).is_ok());
    match state_eval_command(&mut st, &EditCommand::Commit) {
        Err(Halt::Commit(t)) => assert_eq!(t, nested()),
        _ => panic!("expected the committed tree"),
    }
    assert!(matches!(st.ctx, MenuCtx::Root(_)));
    assert_eq!(st.tree, nested());
    assert_eq!(st.tree_typ, nested_type());
}

#[test]
fn conformance_is_checked_at_every_level() {
    assert!(tree_conforms(&abc(), &abc_type()));
    assert!(!tree_conforms(&abc(), &nested_type()));
    assert!(!tree_conforms(&MenuTree::Nat(0), &prim(PrimType::Int)));
    assert!(tree_conforms(&MenuTree::Blank(abc_type()), &abc_type()));
    assert!(!tree_conforms(&MenuTree::Blank(abc_type()), &nested_type()));
    let bad_inside = MenuTree::Product(vec![(
        label("a"),
        MenuTree::Bool(true),
        prim(PrimType::Text),
    )]);
    let typ = MenuType::Product(vec![(label("a"), prim(PrimType::Text))]);
    assert!(!tree_conforms(&bad_inside, &typ));
    let wrong_label = MenuTree::Product(vec![(
        label("z"),
        MenuTree::Text("".to_string()),
        prim(PrimType::Text),
    )]);
    assert!(!tree_conforms(&wrong_label, &typ));
    let (tree, typ) = chosen_union();
    assert!(tree_conforms(&tree, &typ));
}

#[test]
fn trees_that_cannot_be_merged_are_told_apart() {
    let text = prim(PrimType::Text);
    let record = |l: &str, t: MenuTree| MenuTree::Product(vec![(label(l), t, text.clone())]);
    let a = record("a", MenuTree::Text("x".to_string()));
    assert!(are_mergeable(&a, &a));
    assert!(are_mergeable(&a, &MenuTree::Unit));
    assert!(are_mergeable(&MenuTree::Unit, &a));
    assert!(are_mergeable(&a, &MenuTree::Blank(text.clone())));
    assert!(!are_mergeable(&a, &record("b", MenuTree::Unit)));
    assert!(!are_mergeable(&a, &MenuTree::Product(vec![])));
    let other_type =
        MenuTree::Product(vec![(label("a"), MenuTree::Unit, prim(PrimType::Unit))]);
    assert!(!are_mergeable(&a, &other_type));
    let nested = |inner: MenuTree| MenuTree::Product(vec![(label("n"), inner, abc_type())]);
    assert!(are_mergeable(&nested(abc()), &nested(abc())));
    assert!(!are_mergeable(
        &nested(abc()),
        &nested(record("a", MenuTree::Unit))
    ));
    assert!(are_mergeable(
        &nested(abc()),
        &nested(MenuTree::Blank(abc_type()))
    ));
}
