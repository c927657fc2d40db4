use zqm_engine::menu::check::{is_complete, state_is_wf, tree_conforms};
use zqm_engine::menu::semantics::{auto_fill, editor_eval};
use zqm_engine::menu::{
    Command, EditCommand, EditError, Editor, Halt, InitCommand, LabelChoice, MenuCtx, MenuTree,
    MenuType, PrimType,
};
use zqm_engine::types::lang::{Atom, Name};

fn label(s: &str) -> Name {
    Name::Atom(Atom::String(s.to_string()))
}

fn nat_type() -> MenuType {
    MenuType::Prim(PrimType::Nat)
}

fn union_lr() -> MenuType {
    MenuType::Variant(vec![(label("l"), nat_type()), (label("r"), nat_type())])
}

fn schema() -> MenuType {
    MenuType::Product(vec![(label("a"), union_lr()), (label("b"), nat_type())])
}

fn edit(ed: &mut Editor, c: EditCommand) -> Result<(), Halt> {
    editor_eval(ed, &Command::Edit(c))
}

fn fails_with(r: Result<(), Halt>, e: EditError) {
    match r {
        Err(Halt::Message(got)) => assert_eq!(got, e),
        Err(Halt::Commit(_)) => panic!("expected {:?}, got a commit", e),
        Ok(()) => panic!("expected {:?}, got success", e),
    }
}

fn focus(ed: &Editor) -> &MenuTree {
    &ed.state.as_ref().unwrap().tree
}

fn focus_type(ed: &Editor) -> &MenuType {
    &ed.state.as_ref().unwrap().tree_typ
}

fn init(ed: &mut Editor, depth: usize) {
    let tree = auto_fill(&schema(), depth);
    assert!(tree_conforms(&tree, &schema()));
    let r = editor_eval(ed, &Command::Init(InitCommand::Default(tree, schema())));
    assert!(r.is_ok());
}

fn both_arms() -> Vec<(Name, MenuTree, MenuType)> {
    vec![
        (label("l"), MenuTree::Nat(0), nat_type()),
        (label("r"), MenuTree::Nat(0), nat_type()),
    ]
}

#[test]
fn edit_before_init_is_refused() {
    let mut ed = Editor::new();
    fails_with(edit(&mut ed, EditCommand::Ascend), EditError::NotInitialized);
    assert_eq!(ed.history.len(), 1);
    assert!(ed.state.is_none());
}

#[test]
fn auto_commands_are_not_implemented() {
    let mut ed = Editor::new();
    init(&mut ed, 1);
    let r = editor_eval(
        &mut ed,
        &Command::Auto(zqm_engine::menu::AutoCommand::CheckComplete),
    );
    fails_with(r, EditError::NotImplemented);
    assert_eq!(ed.history.len(), 2);
}

#[test]
fn init_sets_the_cursor_at_the_root() {
    let mut ed = Editor::new();
    init(&mut ed, 1);
    let st = ed.state.as_ref().unwrap();
    assert!(matches!(st.ctx, MenuCtx::Root(_)));
    assert_eq!(st.tree_typ, schema());
    assert_eq!(*st.root_typ, schema());
    assert_eq!(
        st.tree,
        MenuTree::Product(vec![
            (label("a"), MenuTree::Blank(union_lr()), union_lr()),
            (label("b"), MenuTree::Nat(0), nat_type()),
        ])
    );
    assert!(state_is_wf(st));
}

/// The walk through the record of a union and a number, from `Init` to
/// `Commit`, with the union filled in place by the `AutoFill` command.
#[test]
fn scenario_record_with_union_filled_in_place() {
    let mut ed = Editor::new();
    init(&mut ed, 1);

    assert!(edit(&mut ed, EditCommand::Descend).is_ok());
    assert_eq!(*focus(&ed), MenuTree::Blank(union_lr()));
    fails_with(edit(&mut ed, EditCommand::Descend), EditError::NoSubtree);

    assert!(edit(&mut ed, EditCommand::AutoFill).is_ok());
    let undecided = MenuTree::Variant(Box::new(LabelChoice {
        before: vec![],
        choice: None,
        after: both_arms(),
    }));
    assert_eq!(*focus(&ed), undecided);
    fails_with(edit(&mut ed, EditCommand::Descend), EditError::NoChosenArm);
    assert_eq!(*focus(&ed), undecided);

    assert!(edit(&mut ed, EditCommand::NextVariant).is_ok());
    let left = MenuTree::Variant(Box::new(LabelChoice {
        before: vec![],
        choice: Some((label("l"), MenuTree::Nat(0), nat_type())),
        after: vec![(label("r"), MenuTree::Nat(0), nat_type())],
    }));
    assert_eq!(*focus(&ed), left);

    assert!(edit(&mut ed, EditCommand::Descend).is_ok());
    assert_eq!(*focus(&ed), MenuTree::Nat(0));
    assert_eq!(*focus_type(&ed), nat_type());

    assert!(edit(&mut ed, EditCommand::Ascend).is_ok());
    assert_eq!(*focus(&ed), left);
    assert_eq!(*focus_type(&ed), union_lr());

    assert!(edit(&mut ed, EditCommand::AcceptVariant).is_ok());
    assert!(matches!(focus(&ed), MenuTree::Product(_)));
    assert_eq!(*focus_type(&ed), schema());
    assert!(matches!(ed.state.as_ref().unwrap().ctx, MenuCtx::Root(_)));

    // To field `b`, and set it to 2 by spinning the number twice.
    assert!(edit(&mut ed, EditCommand::Descend).is_ok());
    assert!(edit(&mut ed, EditCommand::NextSibling).is_ok());
    assert_eq!(*focus(&ed), MenuTree::Nat(0));
    assert!(edit(&mut ed, EditCommand::Descend).is_ok());
    assert!(edit(&mut ed, EditCommand::Descend).is_ok());
    assert_eq!(*focus(&ed), MenuTree::Nat(2));

    match edit(&mut ed, EditCommand::Commit) {
        Err(Halt::Commit(tree)) => {
            assert_eq!(
                tree,
                MenuTree::Product(vec![
                    (label("a"), left, union_lr()),
                    (label("b"), MenuTree::Nat(2), nat_type()),
                ])
            );
            assert!(tree_conforms(&tree, &schema()));
            assert!(is_complete(&tree));
        }
        _ => panic!("expected the committed tree"),
    }
    assert!(matches!(ed.state.as_ref().unwrap().ctx, MenuCtx::Root(_)));
    assert!(state_is_wf(ed.state.as_ref().unwrap()));
    assert_eq!(ed.history.len(), 14);
}

/// The same walk from a tree filled two levels deep: the union is there as
/// soon as field `a` is entered.
#[test]
fn scenario_record_with_union_filled_at_init() {
    let mut ed = Editor::new();
    init(&mut ed, 2);
    assert!(edit(&mut ed, EditCommand::Descend).is_ok());
    assert_eq!(
        *focus(&ed),
        MenuTree::Variant(Box::new(LabelChoice {
            before: vec![],
            choice: None,
            after: both_arms(),
        }))
    );
    fails_with(edit(&mut ed, EditCommand::Descend), EditError::NoChosenArm);
    assert!(edit(&mut ed, EditCommand::NextVariant).is_ok());
    assert!(edit(&mut ed, EditCommand::Descend).is_ok());
    assert_eq!(*focus(&ed), MenuTree::Nat(0));
    assert_eq!(*focus_type(&ed), nat_type());
}

#[test]
fn every_command_is_logged_whatever_comes_of_it() {
    let mut ed = Editor::new();
    fails_with(edit(&mut ed, EditCommand::Descend), EditError::NotInitialized);
    init(&mut ed, 1);
    fails_with(edit(&mut ed, EditCommand::Ascend), EditError::AtRoot);
    assert!(edit(&mut ed, EditCommand::Descend).is_ok());
    assert_eq!(ed.history.len(), 4);
    assert!(matches!(ed.history[0], Command::Edit(EditCommand::Descend)));
    assert!(matches!(ed.history[1], Command::Init(_)));
    assert!(matches!(ed.history[2], Command::Edit(EditCommand::Ascend)));
    assert!(matches!(ed.history[3], Command::Edit(EditCommand::Descend)));
}

#[test]
fn init_resets_a_focused_editor() {
    let mut ed = Editor::new();
    init(&mut ed, 1);
    assert!(edit(&mut ed, EditCommand::Descend).is_ok());
    init(&mut ed, 2);
    assert!(matches!(ed.state.as_ref().unwrap().ctx, MenuCtx::Root(_)));
    assert_eq!(*focus(&ed), auto_fill(&schema(), 2));
}

#[test]
fn types_are_preserved_along_a_random_looking_walk() {
    let cmds = [
        EditCommand::Descend,
        EditCommand::AutoFill,
        EditCommand::NextVariant,
        EditCommand::NextVariant,
        EditCommand::PrevVariant,
        EditCommand::Descend,
        EditCommand::Descend,
        EditCommand::NextSibling,
        EditCommand::PrevSibling,
        EditCommand::NextTree,
        EditCommand::PrevTree,
        EditCommand::Clear,
        EditCommand::NextBlank,
        EditCommand::PrevBlank,
        EditCommand::AutoFill,
        EditCommand::Ascend,
        EditCommand::AcceptVariant,
        EditCommand::VecInsertBlank,
        EditCommand::GotoRoot,
        EditCommand::NextTree,
        EditCommand::NextTree,
        EditCommand::NextTree,
        EditCommand::NextTree,
        EditCommand::Commit,
    ];
    let mut ed = Editor::new();
    init(&mut ed, 1);
    for c in cmds.iter() {
        let _ = edit(&mut ed, *c);
        let st = ed.state.as_ref().unwrap();
        assert!(state_is_wf(st), "after {:?}", c);
        assert!(tree_conforms(&st.tree, &st.tree_typ), "after {:?}", c);
        assert_eq!(*st.root_typ, schema());
    }
}

#[test]
fn failures_in_words() {
    assert_eq!(EditError::AtRoot.message(), "cannot ascend: already at root");
    assert_eq!(EditError::NoSubtree.message(), "no subtrees");
    assert_eq!(EditError::NoChosenArm.message(), "no choice subtree");
    assert_eq!(EditError::WrongTag.message(), "expected a tree of another kind");
    assert_eq!(EditError::Exhausted.message(), "no further tree");
    assert_eq!(EditError::NotInitialized.message(), "Invalid editor state");
    assert_eq!(EditError::NotImplemented.message(), "not implemented");
    assert_eq!(EditError::Overflow.message(), "number too large");
}
