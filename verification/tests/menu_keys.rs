use zqm_engine::menu::io::{edit_commands_of_event, key_is};
use zqm_engine::menu::semantics::{auto_fill, descend};
use zqm_engine::menu::{EditCommand, MenuCtx, MenuState, MenuTree, MenuType, PrimType};
use zqm_engine::types::event::{Event, KeyEventInfo};
use zqm_engine::types::lang::{Atom, Dir1D, Name};
use zqm_engine::types::util::{name_of_str, name_of_string, name_of_usize};

fn key(k: &str) -> Event {
    Event::KeyDown(KeyEventInfo {
        key: k.to_string(),
        alt: false,
        ctrl: false,
        meta: false,
        shift: false,
    })
}

fn at_root(tree: MenuTree, typ: MenuType) -> MenuState {
    MenuState {
        root_typ: std::rc::Rc::new(typ.clone()),
        ctx: MenuCtx::Root(typ.clone()),
        tree,
        tree_typ: typ,
    }
}

fn cmds(st: &MenuState, k: &str) -> Vec<EditCommand> {
    edit_commands_of_event(st, &key(k)).unwrap()
}

#[test]
fn names_from_text_and_numbers() {
    assert_eq!(name_of_str("a"), Name::Atom(Atom::String("a".to_string())));
    assert_eq!(name_of_string("b".to_string()), Name::Atom(Atom::String("b".to_string())));
    assert_eq!(name_of_usize(3), Name::Atom(Atom::Usize(3)));
    assert!(name_of_usize(3) != name_of_usize(4));
    assert!(name_of_str("3") != name_of_usize(3));
    assert_eq!(
        Name::TaggedTuple(Box::new(Name::Void), vec![name_of_usize(1), name_of_str("x")]),
        Name::TaggedTuple(Box::new(Name::Void), vec![name_of_usize(1), name_of_str("x")])
    );
    assert!(
        Name::TaggedTuple(Box::new(Name::Void), vec![name_of_usize(1)])
            != Name::TaggedTuple(Box::new(Name::Void), vec![name_of_usize(2)])
    );
    // Names of digests are compared by the digest alone.
    assert_eq!(
        Name::Merkle(7, Box::new(name_of_str("x"))),
        Name::Merkle(7, Box::new(name_of_str("y")))
    );
    assert!(Name::Merkle(7, Box::new(Name::Void)) != Name::Merkle(8, Box::new(Name::Void)));
    assert_eq!(name_of_str("x").clone(), name_of_str("x"));
}

#[test]
fn key_names_are_compared_whole() {
    assert!(key_is(&"Tab".to_string(), "Tab"));
    assert!(!key_is(&"Tab".to_string(), "Ta"));
    assert!(!key_is(&"tab".to_string(), "Tab"));
}

#[test]
fn keys_that_do_not_depend_on_the_cursor() {
    let typ = MenuType::Prim(PrimType::Text);
    let st = at_root(MenuTree::Text("".to_string()), typ);
    assert_eq!(edit_commands_of_event(&st, &Event::Quit), Err(()));
    assert_eq!(edit_commands_of_event(&st, &key("Escape")), Err(()));
    assert_eq!(cmds(&st, "Enter"), vec![EditCommand::Commit]);
    assert_eq!(cmds(&st, "Backspace"), vec![EditCommand::Clear]);
    assert_eq!(cmds(&st, "ArrowLeft"), vec![EditCommand::Ascend]);
    assert_eq!(cmds(&st, "ArrowRight"), vec![EditCommand::Descend]);
    assert_eq!(cmds(&st, "Tab"), vec![]);
    assert_eq!(cmds(&st, "ArrowUp"), vec![]);
    assert_eq!(cmds(&st, "ArrowDown"), vec![]);
    assert_eq!(cmds(&st, "x"), vec![]);
    let up = Event::KeyUp(KeyEventInfo {
        key: "Enter".to_string(),
        alt: false,
        ctrl: false,
        meta: false,
        shift: false,
    });
    assert_eq!(edit_commands_of_event(&st, &up), Ok(vec![]));
}

#[test]
fn keys_on_a_blank_fill_it() {
    let typ = MenuType::Prim(PrimType::Text);
    let st = at_root(MenuTree::Blank(typ.clone()), typ);
    assert_eq!(cmds(&st, "Tab"), vec![EditCommand::AutoFill]);
    assert_eq!(cmds(&st, "ArrowRight"), vec![EditCommand::AutoFill]);
    assert_eq!(cmds(&st, "ArrowLeft"), vec![EditCommand::Ascend]);
}

#[test]
fn arrows_on_a_union_choose_and_in_a_frame_move() {
    let union = MenuType::Variant(vec![(name_of_str("l"), MenuType::Prim(PrimType::Nat))]);
    let typ = MenuType::Product(vec![
        (name_of_str("u"), union.clone()),
        (name_of_str("n"), MenuType::Prim(PrimType::Nat)),
    ]);
    let mut st = at_root(auto_fill(&typ, 2), typ);
    assert!(descend(&mut st, Dir1D::Forward).is_ok());
    // A union inside a record: the union rule comes first.
    assert_eq!(cmds(&st, "ArrowUp"), vec![EditCommand::PrevVariant]);
    assert_eq!(cmds(&st, "ArrowDown"), vec![EditCommand::NextVariant]);
    let mut st = at_root(
        auto_fill(&MenuType::Tup(vec![MenuType::Prim(PrimType::Nat)]), 1),
        MenuType::Tup(vec![MenuType::Prim(PrimType::Nat)]),
    );
    assert!(descend(&mut st, Dir1D::Forward).is_ok());
    assert_eq!(cmds(&st, "ArrowUp"), vec![EditCommand::PrevSibling]);
    assert_eq!(cmds(&st, "ArrowDown"), vec![EditCommand::NextSibling]);
    let mut st = at_root(
        auto_fill(&MenuType::Product(vec![(name_of_str("n"), MenuType::Prim(PrimType::Nat))]), 1),
        MenuType::Product(vec![(name_of_str("n"), MenuType::Prim(PrimType::Nat))]),
    );
    assert!(descend(&mut st, Dir1D::Forward).is_ok());
    assert_eq!(cmds(&st, "ArrowUp"), vec![EditCommand::PrevSibling]);
    assert_eq!(cmds(&st, "ArrowDown"), vec![EditCommand::NextSibling]);
}
