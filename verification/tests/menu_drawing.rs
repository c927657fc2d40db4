use zqm_engine::menu::draw::{draw_menu, draw_tree, draw_type, render_elms};
use zqm_engine::menu::semantics::{auto_fill, cycle_variant, descend};
use zqm_engine::menu::{FuncType, MenuCtx, MenuState, MenuTree, MenuType, PrimType};
use zqm_engine::render::pen::Pen;
use zqm_engine::render::{FlowAtts, FrameType, Render, TextAtts};
use zqm_engine::types::lang::{Dir1D, Dir2D, Name};
use zqm_engine::types::render::{Color, Dim, Elm, Fill, Node, Rect};
use zqm_engine::types::util::name_of_str;

fn at_root(tree: MenuTree, typ: MenuType) -> MenuState {
    MenuState {
        root_typ: std::rc::Rc::new(typ.clone()),
        ctx: MenuCtx::Root(typ.clone()),
        tree,
        tree_typ: typ,
    }
}

fn node(elm: &Elm) -> &Node {
    match elm {
        Elm::Node(n) => n,
        _ => panic!("expected a node"),
    }
}

fn atts(zoom: usize) -> TextAtts {
    TextAtts {
        zoom,
        fg_fill: Fill::Closed(Color::RGB(1, 1, 1)),
        bg_fill: Fill::Empty,
        glyph_dim: Dim { width: 5, height: 5 },
        glyph_flow: FlowAtts { dir: Dir2D::Right, intra_pad: 1, inter_pad: 1 },
    }
}

fn right(pad: usize) -> FrameType {
    FrameType::Flow(FlowAtts { dir: Dir2D::Right, intra_pad: pad, inter_pad: pad })
}

#[test]
fn a_pen_draws_all_or_nothing() {
    let mut pen = Pen::new();
    pen.str("ab", &atts(1));
    pen.name(&name_of_str("c"), &atts(1));
    pen.elm(Elm::Rect(Rect::new(0, 0, 1, 1), Fill::Empty));
    let mut inner = Pen::new();
    inner.text(&"d".to_string(), &atts(2));
    pen.frame(right(3), Fill::Closed(Color::RGB(9, 9, 9)), inner);
    let mut more = Pen::new();
    more.str("e", &atts(1));
    pen.all(more);
    let elms = pen.done().unwrap();
    assert_eq!(elms.len(), 5);
    assert_eq!(node(&elms[0]).rect, Rect::new(0, 0, 13, 7));
    assert_eq!(node(&elms[1]).rect, Rect::new(0, 0, 7, 7));
    // A glyph of 10 with padding 1 is 12 wide; the frame adds 3 on each side.
    assert_eq!(node(&elms[3]).rect, Rect::new(0, 0, 18, 18));
    assert_eq!(node(&elms[3]).fill, Fill::Closed(Color::RGB(9, 9, 9)));
    assert_eq!(node(&node(&elms[3]).children[0]).rect, Rect::new(3, 3, 12, 12));

    let mut pen = Pen::new();
    pen.str("a", &atts(1));
    pen.name(&Name::Merkle(1, Box::new(Name::Void)), &atts(1));
    pen.str("b", &atts(1));
    assert!(pen.done().is_none());
    let mut pen = Pen::new();
    let mut bad = Pen::new();
    bad.str("a", &atts(usize::MAX / 2));
    pen.frame(right(1), Fill::Empty, bad);
    assert!(pen.done().is_none());
    let mut pen = Pen::new();
    pen.fail();
    pen.str("a", &atts(1));
    assert!(pen.done().is_none());
    let mut pen = Pen::new();
    let mut wide = Pen::new();
    wide.elm(Elm::Rect(Rect::new(0, 0, usize::MAX, 1), Fill::Empty));
    pen.frame(right(1), Fill::Empty, wide);
    assert!(pen.done().is_none());
}

#[test]
fn the_unit_at_the_root_is_drawn_in_nested_boxes() {
    let st = at_root(MenuTree::Unit, MenuType::Prim(PrimType::Unit));
    let mut r = Render::new();
    assert!(render_elms(&st, &mut r));
    let elms = r.into_elms();
    assert_eq!(elms.len(), 1);
    let top = node(&elms[0]);
    assert_eq!(top.rect, Rect::new(0, 0, 49, 47));
    assert_eq!(top.fill, Fill::Empty);
    let root = node(&top.children[0]);
    assert_eq!(root.rect, Rect::new(2, 2, 45, 43));
    let cursor_box = node(&root.children[0]);
    assert_eq!(cursor_box.rect, Rect::new(2, 2, 41, 39));
    assert_eq!(cursor_box.fill, Fill::Open(Color::RGB(255, 255, 255), 1));
    assert_eq!(cursor_box.children.len(), 2);
    let tree = node(&cursor_box.children[0]);
    assert_eq!(tree.rect, Rect::new(2, 2, 37, 21));
    assert_eq!(tree.fill, Fill::Open(Color::RGB(100, 255, 100), 1));
    let text = node(&tree.children[0]);
    assert_eq!(text.rect, Rect::new(2, 2, 33, 17));
    assert_eq!(text.children.len(), 2);
    let typ = node(&cursor_box.children[1]);
    assert_eq!(typ.rect, Rect::new(2, 25, 23, 12));
}

#[test]
fn a_record_is_a_column_of_labelled_rows() {
    let typ = MenuType::Product(vec![
        (name_of_str("a"), MenuType::Prim(PrimType::Unit)),
        (name_of_str("bc"), MenuType::Prim(PrimType::Null)),
    ]);
    let mut pen = Pen::new();
    draw_tree(&mut pen, &auto_fill(&typ, 1), false, Fill::Empty);
    let elms = pen.done().unwrap();
    let column = node(&node(&elms[0]).children[0]);
    assert_eq!(column.children.len(), 2);
    let first = node(&column.children[0]);
    let second = node(&column.children[1]);
    // Star, name, equals sign, and the tree of the field.
    assert_eq!(first.children.len(), 4);
    assert_eq!(second.children.len(), 4);
    assert_eq!(node(&first.children[1]).children.len(), 1);
    assert_eq!(node(&second.children[1]).children.len(), 2);
    assert_eq!(node(&first.children[3]).fill, Fill::Open(Color::RGB(50, 100, 50), 1));
    assert!(second.rect.pos.y > first.rect.pos.y);
    assert_eq!(second.rect.pos.x, first.rect.pos.x);
}

#[test]
fn a_union_in_detail_shows_every_arm() {
    let typ = MenuType::Variant(vec![
        (name_of_str("l"), MenuType::Prim(PrimType::Unit)),
        (name_of_str("r"), MenuType::Prim(PrimType::Unit)),
        (name_of_str("m"), MenuType::Prim(PrimType::Unit)),
    ]);
    let mut st = at_root(auto_fill(&typ, 1), typ);
    let arms_shown = |st: &MenuState, detailed: bool| -> Vec<usize> {
        let mut pen = Pen::new();
        draw_tree(&mut pen, &st.tree, detailed, Fill::Empty);
        let elms = pen.done().unwrap();
        let column = node(&node(&elms[0]).children[0]);
        column.children.iter().map(|e| node(e).children.len()).collect()
    };
    // In detail: the line that asks for a choice has three texts, and the
    // box of arms three rows; not in detail: three underscores.
    assert_eq!(arms_shown(&st, true), vec![3, 3]);
    assert_eq!(arms_shown(&st, false), vec![3]);
    assert!(cycle_variant(&mut st, Dir1D::Forward).is_ok());
    assert_eq!(arms_shown(&st, true), vec![1, 3]);
    // The chosen arm alone: hash, name, equals sign and its tree.
    assert_eq!(arms_shown(&st, false), vec![4]);
    let mut r = Render::new();
    assert!(render_elms(&st, &mut r));
}

#[test]
fn the_context_is_drawn_around_the_focus() {
    let typ = MenuType::Product(vec![
        (name_of_str("a"), MenuType::Tup(vec![MenuType::Prim(PrimType::Unit)])),
        (name_of_str("b"), MenuType::Prim(PrimType::Null)),
    ]);
    let mut st = at_root(auto_fill(&typ, 2), typ);
    assert!(descend(&mut st, Dir1D::Forward).is_ok());
    assert!(descend(&mut st, Dir1D::Forward).is_ok());
    assert_eq!(st.tree, MenuTree::Unit);
    let elms = draw_menu(&st).done().unwrap();
    let root = node(&node(&elms[0]).children[0]);
    let record_box = node(&root.children[0]);
    assert_eq!(record_box.fill, Fill::Open(Color::RGB(255, 100, 255), 1));
    let fields = node(&record_box.children[0]);
    assert_eq!(fields.children.len(), 2);
    // The item of field `a` holds its label and the box of the tuple.
    let item_a = node(&fields.children[0]);
    assert_eq!(item_a.children.len(), 4);
    let tuple_box = node(&item_a.children[3]);
    assert_eq!(tuple_box.fill, Fill::Open(Color::RGB(255, 100, 255), 1));
    let slots = node(&tuple_box.children[0]);
    assert_eq!(slots.children.len(), 1);
    let cursor_box = node(&node(&slots.children[0]).children[0]);
    assert_eq!(cursor_box.fill, Fill::Open(Color::RGB(255, 255, 255), 1));
    assert_eq!(cursor_box.rect.dim, Dim { width: 41, height: 39 });
    // The item of field `b` holds its label and its tree.
    assert_eq!(node(&fields.children[1]).children.len(), 4);
}

#[test]
fn what_cannot_be_drawn_is_refused_and_nothing_is_drawn() {
    let opt = MenuType::Option(Box::new(MenuType::Prim(PrimType::Unit)));
    let mut st = at_root(auto_fill(&opt, 2), opt);
    let mut r = Render::new();
    r.rect(&Rect::new(0, 0, 1, 1), Fill::Empty);
    assert!(render_elms(&st, &mut r));
    assert_eq!(r.frame.elms.len(), 2);
    assert!(descend(&mut st, Dir1D::Forward).is_ok());
    assert!(!render_elms(&st, &mut r));
    assert_eq!(r.frame.elms.len(), 2);
    let seq = MenuType::Vec(Box::new(MenuType::Prim(PrimType::Unit)));
    let mut st = at_root(auto_fill(&seq, 2), seq);
    assert!(descend(&mut st, Dir1D::Forward).is_ok());
    assert!(!render_elms(&st, &mut r));
    let no_arms = MenuType::Variant(vec![]);
    let st = at_root(MenuTree::Blank(no_arms.clone()), no_arms);
    assert!(!render_elms(&st, &mut r));
    let digest = MenuType::Product(vec![(
        Name::Merkle(1, Box::new(Name::Void)),
        MenuType::Prim(PrimType::Unit),
    )]);
    let st = at_root(auto_fill(&digest, 1), digest);
    assert!(!render_elms(&st, &mut r));
    assert_eq!(r.frame.elms.len(), 2);
}

#[test]
fn every_kind_of_schema_is_drawn() {
    let unit = MenuType::Prim(PrimType::Unit);
    let kids = |t: &MenuType| -> usize {
        let mut pen = Pen::new();
        draw_type(&mut pen, t);
        let elms = pen.done().unwrap();
        assert_eq!(elms.len(), 1);
        node(&elms[0]).children.len()
    };
    // A primitive is a text: one child for each sign.
    assert_eq!(kids(&unit), 2);
    assert_eq!(kids(&MenuType::Prim(PrimType::Bool)), 4);
    assert_eq!(kids(&MenuType::Option(Box::new(unit.clone()))), 2);
    assert_eq!(kids(&MenuType::Vec(Box::new(unit.clone()))), 3);
    assert_eq!(kids(&MenuType::Tup(vec![])), 2);
    assert_eq!(kids(&MenuType::Tup(vec![unit.clone(), unit.clone(), unit.clone()])), 7);
    assert_eq!(
        kids(&MenuType::Func(FuncType { args: vec![unit.clone()], rets: vec![unit.clone(), unit.clone()] })),
        9
    );
    assert_eq!(kids(&MenuType::Product(vec![])), 1);
    let fields = vec![(name_of_str("a"), unit.clone()), (name_of_str("b"), unit.clone())];
    assert_eq!(kids(&MenuType::Product(fields.clone())), 2);
    assert_eq!(kids(&MenuType::Variant(fields.clone())), 2);
    let rows = |t: &MenuType| -> Vec<usize> {
        let mut pen = Pen::new();
        draw_type(&mut pen, t);
        let elms = pen.done().unwrap();
        node(&elms[0]).children.iter().map(|e| node(e).children.len()).collect()
    };
    // Opening sign, label, colon, schema; the last row also closes.
    assert_eq!(rows(&MenuType::Product(fields.clone())), vec![4, 5]);
    // A union marks every label.
    assert_eq!(rows(&MenuType::Variant(fields)), vec![5, 6]);
    // Var: the text of an atom.
    assert_eq!(kids(&MenuType::Var(name_of_str("abc"))), 3);
}
