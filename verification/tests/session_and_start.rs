use zqm_engine::bitmap;
use zqm_engine::candid::draw::{draw_repl, render_elms};
use zqm_engine::candid::types::{
    is_translatable, IdlBinding, IdlDec, IdlFunc, IdlPrim, IdlProg, IdlType,
};
use zqm_engine::candid::{Call, Config, Repl};
use zqm_engine::eval;
use zqm_engine::init::{init, init_state, menu_frame};
use zqm_engine::menu;
use zqm_engine::menu::text::tree_is_printable;
use zqm_engine::menu::{MenuCtx, MenuTree, MenuType, PrimType};
use zqm_engine::render::{Out, Render};
use zqm_engine::types::lang::{Command, Editor, Frame, Name, State};
use zqm_engine::types::render::{Color, Elm, Fill, Node, Rect};
use zqm_engine::types::util::name_of_str;

fn node(elm: &Elm) -> &Node {
    match elm {
        Elm::Node(n) => n,
        _ => panic!("expected a node"),
    }
}

fn repl(display: Vec<(Name, Elm)>, history: Vec<Call>) -> Repl {
    Repl {
        config: Config {
            replica_url: "url".to_string(),
            canister_id: "cid".to_string(),
            menu_type: MenuType::Prim(PrimType::Unit),
        },
        display,
        history,
    }
}

fn call(rets: Result<String, String>, out: Option<Out>) -> Call {
    Call {
        method: "f".to_string(),
        args: MenuTree::Unit,
        args_idl: "()".to_string(),
        rets_idl: rets,
        render_out: out,
        timestamp: (0, 0),
        duration: (1, 500_000_000),
    }
}

fn service(methods: Vec<(&str, Vec<IdlType>)>) -> IdlProg {
    IdlProg {
        decs: vec![],
        actor: Some(IdlType::ServT(
            methods
                .into_iter()
                .map(|(id, args)| IdlBinding {
                    id: id.to_string(),
                    typ: IdlType::FuncT(IdlFunc { args, rets: vec![] }),
                })
                .collect(),
        )),
    }
}

#[test]
fn an_empty_session_shows_nothing() {
    assert_eq!(draw_repl(&repl(vec![], vec![])).done(), Some(vec![]));
    let mut r = Render::new();
    assert!(render_elms(&repl(vec![], vec![]), &mut r));
    assert_eq!(r.into_elms().len(), 0);
}

#[test]
fn the_cells_on_display_are_drawn_under_a_heading() {
    let cell = Elm::Rect(Rect::new(0, 0, 30, 40), Fill::Empty);
    let session = repl(
        vec![(name_of_str("a"), cell.clone()), (name_of_str("bc"), cell.clone())],
        vec![],
    );
    let elms = draw_repl(&session).done().unwrap();
    assert_eq!(elms.len(), 1);
    let column = node(&elms[0]);
    assert_eq!(column.children.len(), 3);
    // `Render cells:` has thirteen signs.
    assert_eq!(node(&column.children[0]).children.len(), 13);
    let first = node(&column.children[1]);
    assert_eq!(first.fill, Fill::Open(Color::RGB(255, 255, 255), 1));
    assert_eq!(first.children.len(), 2);
    // The name and `= ` in a row, and the element under it.
    let label = node(&first.children[0]);
    assert_eq!(label.children.len(), 2);
    assert_eq!(node(&label.children[0]).children.len(), 1);
    assert_eq!(node(&label.children[1]).children.len(), 2);
    assert_eq!(first.children[1], Elm::Rect(Rect::new(2, 20, 30, 40), Fill::Empty));
    let second = node(&column.children[2]);
    assert_eq!(node(&node(&second.children[0]).children[0]).children.len(), 2);
    assert!(second.rect.pos.y > first.rect.pos.y);
}

#[test]
fn a_session_whose_arrows_have_no_glyphs_is_not_drawn() {
    // The arrow after the time of a call is three signs without a glyph,
    // and three of these are wider than a layout can be.
    for c in [
        call(Ok("()".to_string()), None),
        call(Err("no".to_string()), None),
        call(Ok("".to_string()), Some(Out::Draw(Elm::Rect(Rect::new(0, 0, 1, 1), Fill::Empty)))),
    ] {
        let mut r = Render::new();
        r.rect(&Rect::new(0, 0, 1, 1), Fill::Empty);
        assert!(!render_elms(&repl(vec![], vec![c]), &mut r));
        assert_eq!(r.frame.elms.len(), 1);
    }
}

#[test]
fn what_the_editor_at_work_shows() {
    let blank_bitmap = State {
        stack: vec![],
        frame: Frame::from_editor(Editor::Bitmap(Box::new(bitmap::Editor {
            history: vec![],
            state: None,
        }))),
    };
    assert_eq!(eval::render_elms(&blank_bitmap), Some(vec![]));
    let mut st = blank_bitmap;
    let make = Command::Bitmap(bitmap::Command::Init(bitmap::InitCommand::Make8x8));
    assert!(eval::is_admitted(&st, &make));
    assert!(eval::command_eval(&mut st, &make).is_ok());
    // The grid, the cursor, and two rectangles for each of 64 bits.
    assert_eq!(eval::render_elms(&st).unwrap().len(), 2 + 2 * 64);
    let off = Command::Bitmap(bitmap::Command::Auto(bitmap::AutoCommand::SetBit(8, 0, true)));
    assert!(!eval::is_admitted(&st, &off));
    let on = Command::Bitmap(bitmap::Command::Auto(bitmap::AutoCommand::SetBit(7, 7, true)));
    assert!(eval::is_admitted(&st, &on));
    assert!(eval::is_responsive(&st));

    let blank_menu = State {
        stack: vec![],
        frame: Frame::from_editor(Editor::Menu(Box::new(menu::Editor::new()))),
    };
    assert_eq!(eval::render_elms(&blank_menu), Some(vec![]));
    assert!(!eval::is_responsive(&blank_menu));
    let unit = MenuType::Prim(PrimType::Unit);
    let bad = Command::Menu(menu::Command::Init(menu::InitCommand::Default(
        MenuTree::Nat(0),
        unit.clone(),
    )));
    assert!(!eval::is_admitted(&blank_menu, &bad));
    let st = State { stack: vec![], frame: menu_frame(unit) };
    assert!(eval::is_responsive(&st));
    let elms = eval::render_elms(&st).unwrap();
    assert_eq!(elms.len(), 1);
    // A blank is three underscores at zoom 3: 45 + 4 wide and 17 high.
    assert_eq!(node(&elms[0]).rect, Rect::new(0, 0, 65, 47));

    let session = State {
        stack: vec![],
        frame: Frame::from_editor(Editor::CandidRepl(Box::new(repl(vec![], vec![])))),
    };
    assert_eq!(eval::render_elms(&session), Some(vec![]));
    assert!(!eval::is_responsive(&session));
    let grid = State {
        stack: vec![],
        frame: Frame::from_editor(Editor::Grid(Box::new(zqm_engine::grid::Editor {}))),
    };
    assert_eq!(eval::render_elms(&grid), None);
}

#[test]
fn the_engine_starts_on_a_blank_of_the_service() {
    let p = service(vec![("f", vec![IdlType::PrimT(IdlPrim::Nat)]), ("g", vec![])]);
    assert!(p.is_wf());
    let schema = MenuType::Variant(vec![
        (name_of_str("f"), MenuType::Tup(vec![MenuType::Prim(PrimType::Nat)])),
        (name_of_str("g"), MenuType::Prim(PrimType::Unit)),
    ]);
    let st = init_state(&p);
    assert_eq!(st.stack.len(), 0);
    assert_eq!(st.frame.name, Name::Void);
    match &st.frame.editor {
        Editor::Menu(ed) => {
            assert_eq!(ed.history.len(), 1);
            let cursor = ed.state.as_ref().unwrap();
            assert_eq!(cursor.tree, MenuTree::Blank(schema.clone()));
            assert_eq!(cursor.tree_typ, schema);
            assert_eq!(*cursor.root_typ, schema);
            assert!(matches!(cursor.ctx, MenuCtx::Root(_)));
        }
        _ => panic!("expected the menu editor"),
    }
    let st = init("localhost:8000", "ic:00", &p);
    assert_eq!(st.stack.len(), 1);
    match &st.stack[0].editor {
        Editor::CandidRepl(r) => {
            assert_eq!(r.config.replica_url, "localhost:8000");
            assert_eq!(r.config.canister_id, "ic:00");
            assert_eq!(r.config.menu_type, schema);
            assert_eq!(r.display.len(), 0);
            assert_eq!(r.history.len(), 0);
        }
        _ => panic!("expected the session"),
    }
    match &st.frame.editor {
        Editor::Menu(ed) => {
            assert_eq!(ed.state.as_ref().unwrap().tree, MenuTree::Blank(schema.clone()))
        }
        _ => panic!("expected the menu editor"),
    }
}

#[test]
fn programs_that_cannot_be_translated_are_told_apart() {
    let nat = || IdlType::PrimT(IdlPrim::Nat);
    let other = || IdlType::PrimT(IdlPrim::Other);
    assert!(is_translatable(&nat()));
    assert!(!is_translatable(&other()));
    assert!(!is_translatable(&IdlType::VecT(Box::new(other()))));
    assert!(!is_translatable(&IdlType::OptT(Box::new(IdlType::VecT(Box::new(other()))))));
    assert!(is_translatable(&IdlType::VarT("t".to_string())));
    assert!(!is_translatable(&IdlType::FuncT(IdlFunc { args: vec![nat()], rets: vec![other()] })));
    assert!(service(vec![("f", vec![nat()])]).is_wf());
    assert!(!service(vec![("f", vec![nat(), other()])]).is_wf());
    assert!(!IdlProg { decs: vec![], actor: None }.is_wf());
    assert!(!IdlProg { decs: vec![], actor: Some(nat()) }.is_wf());
    let with_dec = |d: IdlDec| IdlProg { decs: vec![d], actor: Some(IdlType::ServT(vec![])) };
    assert!(with_dec(IdlDec::TypD(IdlBinding { id: "t".to_string(), typ: nat() })).is_wf());
    assert!(!with_dec(IdlDec::TypD(IdlBinding { id: "t".to_string(), typ: other() })).is_wf());
    assert!(!with_dec(IdlDec::ImportD("x".to_string())).is_wf());
    let not_a_procedure = IdlProg {
        decs: vec![],
        actor: Some(IdlType::ServT(vec![IdlBinding { id: "m".to_string(), typ: nat() }])),
    };
    assert!(!not_a_procedure.is_wf());
}

#[test]
fn trees_with_labels_of_digests_cannot_be_written() {
    let digest = || Name::Merkle(1, Box::new(Name::Void));
    let unit = MenuType::Prim(PrimType::Unit);
    assert!(tree_is_printable(&MenuTree::Unit));
    let good = MenuTree::Product(vec![(name_of_str("a"), MenuTree::Unit, unit.clone())]);
    let bad = MenuTree::Product(vec![(digest(), MenuTree::Unit, unit.clone())]);
    assert!(tree_is_printable(&good));
    assert!(!tree_is_printable(&bad));
    assert!(!tree_is_printable(&MenuTree::Vec(vec![good.clone(), bad.clone()], unit.clone())));
    assert!(!tree_is_printable(&MenuTree::Tup(vec![(bad.clone(), unit.clone())])));
    // What is not written does not count: the payload of an absent option,
    // and the arms of a union that are not chosen.
    assert!(tree_is_printable(&MenuTree::Option(false, Box::new(bad.clone()), unit.clone())));
    assert!(!tree_is_printable(&MenuTree::Option(true, Box::new(bad.clone()), unit.clone())));
    let choice = |chosen: Option<(Name, MenuTree, MenuType)>| {
        MenuTree::Variant(Box::new(menu::LabelChoice {
            before: vec![(digest(), MenuTree::Unit, unit.clone())],
            choice: chosen,
            after: vec![],
        }))
    };
    assert!(tree_is_printable(&choice(None)));
    assert!(tree_is_printable(&choice(Some((name_of_str("a"), MenuTree::Unit, unit.clone())))));
    assert!(!tree_is_printable(&choice(Some((digest(), MenuTree::Unit, unit.clone())))));
}

#[test]
fn a_session_starts_here_and_now() {
    let st = zqm_engine::locus::init();
    assert_eq!(st.locus.point.time, "now");
    assert_eq!(st.locus.point.place, "here");
    assert!(st.locus.space.time.path.is_empty());
    assert!(st.locus.space.place.path.is_empty());
    assert!(st.command_history.is_empty());
    assert!(st.bitmap_editor.state.is_none());
    assert!(st.bitmap_editor.history.is_empty());
}
