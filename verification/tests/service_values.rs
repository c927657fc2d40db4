use zqm_engine::adapton::{begin_log_event, end_log_event, log_event};
use zqm_engine::candid::value::{
    find_render_out, get_color, get_color_nat, get_dim, get_dir2d, get_dir2d_, get_fill,
    get_fill_, get_flow_atts, get_nat, get_pos, get_rect, get_render_elm, get_render_elm_,
    get_render_elms, get_render_named_elms, get_render_named_elms_, get_render_node,
    get_render_out, get_render_rect_fill, get_render_text, get_result_render_out, get_text,
    get_text_atts, result_is_readable, try_find_render_out, IdlField, IdlValue,
};
use zqm_engine::candid::{Config, Repl};
use zqm_engine::menu::{MenuType, PrimType};
use zqm_engine::render::{FlowAtts, Out, Render, TextAtts};
use zqm_engine::types::adapton::{Agent, Context, LogEvent, LogEventTag, Stack, Store};
use zqm_engine::types::lang::{Dir2D, Media, Name};
use zqm_engine::types::render::{Color, Dim, Elm, Fill, Node, Pos, Rect};
use zqm_engine::types::util::name_of_str;

fn num(n: u64) -> IdlValue {
    IdlValue::Nat(n)
}

fn record(vals: Vec<IdlValue>) -> IdlValue {
    IdlValue::Record(
        vals.into_iter().enumerate().map(|(i, val)| IdlField { id: i as u32, val }).collect(),
    )
}

fn variant(id: u32, val: IdlValue) -> IdlValue {
    IdlValue::Variant(Box::new(IdlField { id, val }))
}

fn pos(x: u64, y: u64) -> IdlValue {
    record(vec![num(x), num(y)])
}

fn dim(height: u64, width: u64) -> IdlValue {
    record(vec![num(height), num(width)])
}

fn rect(x: u64, y: u64, w: u64, h: u64) -> IdlValue {
    record(vec![dim(h, w), pos(x, y)])
}

fn color(r: u64, g: u64, b: u64) -> IdlValue {
    record(vec![num(r), num(g), num(b)])
}

fn closed(r: u64, g: u64, b: u64) -> IdlValue {
    variant(240232876, color(r, g, b))
}

fn no_fill() -> IdlValue {
    variant(1225396920, IdlValue::Other)
}

fn rect_elm(x: u64, y: u64, w: u64, h: u64) -> IdlValue {
    variant(1269255460, record(vec![rect(x, y, w, h), closed(1, 2, 3)]))
}

fn flow_atts() -> IdlValue {
    record(vec![variant(3915647964, IdlValue::Other), num(1), num(2)])
}

fn text_atts(zoom: u64) -> IdlValue {
    record(vec![closed(9, 9, 9), num(zoom), flow_atts(), no_fill(), dim(5, 5)])
}

fn text_elm(s: &str, zoom: u64) -> IdlValue {
    variant(1291439277, record(vec![IdlValue::Text(s.to_string()), text_atts(zoom)]))
}

fn node_elm(children: Vec<IdlValue>) -> IdlValue {
    variant(1225394690, record(vec![IdlValue::Vec(children), no_fill(), rect(0, 0, 50, 60)]))
}

fn the_rect(x: isize, y: isize) -> Elm {
    Elm::Rect(Rect::new(x, y, 10, 20), Fill::Closed(Color::RGB(1, 2, 3)))
}

#[test]
fn numbers_and_texts() {
    assert_eq!(get_nat(&num(7)), Some(7));
    assert_eq!(get_nat(&IdlValue::Text("7".to_string())), None);
    assert_eq!(get_nat(&IdlValue::Other), None);
    assert_eq!(get_text(&IdlValue::Text("t".to_string())), Some("t".to_string()));
    assert_eq!(get_text(&num(7)), None);
}

#[test]
fn positions_sizes_and_rectangles() {
    assert_eq!(get_pos(&pos(3, 4)), Some(Pos { x: 3, y: 4 }));
    assert_eq!(get_pos(&record(vec![num(3), IdlValue::Other])), None);
    assert_eq!(get_pos(&num(3)), None);
    // A size holds its height before its width.
    assert_eq!(get_dim(&dim(3, 4)), Some(Dim { width: 4, height: 3 }));
    assert_eq!(get_dim(&record(vec![IdlValue::Other, num(3)])), None);
    assert_eq!(get_rect(&rect(1, 2, 3, 4)), Some(Rect::new(1, 2, 3, 4)));
    assert_eq!(get_rect(&record(vec![dim(1, 1), pos(1, 1), num(0)])), None);
    assert_eq!(get_rect(&record(vec![dim(1, 1)])), None);
    assert_eq!(get_rect(&record(vec![num(1), pos(1, 1)])), None);
    assert_eq!(get_rect(&IdlValue::Other), None);
}

#[test]
fn colours_and_fills() {
    assert_eq!(get_color(&color(1, 2, 3)), Some(Color::RGB(1, 2, 3)));
    assert_eq!(get_color(&record(vec![num(1), num(2)])), None);
    assert_eq!(get_color(&record(vec![num(1), num(2), IdlValue::Other])), None);
    assert_eq!(
        get_color_nat(&record(vec![color(1, 2, 3), num(4)])),
        Some((Color::RGB(1, 2, 3), 4))
    );
    assert_eq!(get_color_nat(&record(vec![color(1, 2, 3)])), None);
    assert_eq!(get_fill(&closed(1, 2, 3)), Some(Fill::Closed(Color::RGB(1, 2, 3))));
    assert_eq!(
        get_fill(&variant(1236534218, record(vec![color(1, 2, 3), num(2)]))),
        Some(Fill::Open(Color::RGB(1, 2, 3), 2))
    );
    assert_eq!(get_fill(&no_fill()), Some(Fill::Empty));
    assert_eq!(get_fill(&variant(1, color(1, 2, 3))), None);
    assert_eq!(get_fill(&variant(240232876, num(1))), None);
    assert_eq!(get_fill(&color(1, 2, 3)), None);
    assert_eq!(
        get_fill_(&IdlField { id: 1236534218, val: color(1, 2, 3) }),
        None
    );
}

#[test]
fn directions_and_attributes() {
    assert_eq!(get_dir2d(&variant(3915647964, IdlValue::Other)), Some(Dir2D::Right));
    assert_eq!(get_dir2d(&variant(1, IdlValue::Other)), None);
    assert_eq!(get_dir2d(&num(1)), None);
    assert_eq!(get_dir2d_(&IdlField { id: 3915647964, val: num(0) }), Some(Dir2D::Right));
    assert_eq!(
        get_flow_atts(&flow_atts()),
        Some(FlowAtts { dir: Dir2D::Right, intra_pad: 1, inter_pad: 2 })
    );
    assert_eq!(get_flow_atts(&record(vec![num(0), num(1), num(2)])), None);
    assert_eq!(get_flow_atts(&record(vec![])), None);
    assert_eq!(
        get_text_atts(&text_atts(3)),
        Some(TextAtts {
            zoom: 3,
            fg_fill: Fill::Closed(Color::RGB(9, 9, 9)),
            bg_fill: Fill::Empty,
            glyph_dim: Dim { width: 5, height: 5 },
            glyph_flow: FlowAtts { dir: Dir2D::Right, intra_pad: 1, inter_pad: 2 },
        })
    );
    assert_eq!(get_text_atts(&record(vec![num(1)])), None);
    assert_eq!(
        get_text_atts(&record(vec![closed(9, 9, 9), num(1), flow_atts(), num(0), dim(5, 5)])),
        None
    );
}

#[test]
fn elements_of_every_kind() {
    assert_eq!(get_render_elm(&rect_elm(1, 2, 10, 20)), Some(the_rect(1, 2)));
    assert_eq!(
        get_render_rect_fill(&record(vec![rect(1, 2, 10, 20), closed(1, 2, 3)])),
        Some(the_rect(1, 2))
    );
    assert_eq!(get_render_rect_fill(&record(vec![rect(1, 2, 10, 20), num(0)])), None);
    let drawn = {
        let mut r = Render::new();
        r.text(&"ab".to_string(), &get_text_atts(&text_atts(2)).unwrap());
        r.into_elms().pop().unwrap()
    };
    assert_eq!(get_render_elm(&text_elm("ab", 2)), Some(drawn.clone()));
    assert_eq!(
        get_render_text(&record(vec![IdlValue::Text("ab".to_string()), text_atts(2)])),
        Some(drawn.clone())
    );
    assert_eq!(get_render_text(&record(vec![num(1), text_atts(2)])), None);
    let expected = Elm::Node(Box::new(Node {
        name: Name::Void,
        rect: Rect::new(0, 0, 50, 60),
        fill: Fill::Empty,
        children: vec![the_rect(1, 2), drawn.clone(), Elm::Node(Box::new(Node {
            name: Name::Void,
            rect: Rect::new(0, 0, 50, 60),
            fill: Fill::Empty,
            children: vec![],
        }))],
    }));
    let value = node_elm(vec![rect_elm(1, 2, 10, 20), text_elm("ab", 2), node_elm(vec![])]);
    assert_eq!(get_render_elm(&value), Some(expected.clone()));
    match &value {
        IdlValue::Variant(f) => {
            assert_eq!(get_render_elm_(f), Some(expected.clone()));
            assert_eq!(get_render_node(&f.val), Some(expected));
        }
        _ => panic!("expected a variant"),
    }
    // One child that is no element spoils the node.
    assert_eq!(get_render_elm(&node_elm(vec![rect_elm(1, 2, 10, 20), num(0)])), None);
    assert_eq!(get_render_elm(&variant(7, num(0))), None);
    assert_eq!(get_render_elm(&num(0)), None);
    assert_eq!(
        get_render_elms(&vec![rect_elm(1, 2, 10, 20), rect_elm(3, 4, 10, 20)]),
        Some(vec![the_rect(1, 2), the_rect(3, 4)])
    );
    assert_eq!(get_render_elms(&vec![]), Some(vec![]));
    assert_eq!(get_render_elms(&vec![rect_elm(1, 2, 10, 20), num(0)]), None);
}

fn named(name: &str, x: u64) -> IdlValue {
    record(vec![IdlValue::Text(name.to_string()), rect_elm(x, 0, 10, 20)])
}

fn same_out(a: &Option<Out>, b: &Option<Out>) -> bool {
    match (a, b) {
        (Some(Out::Draw(x)), Some(Out::Draw(y))) => x == y,
        (Some(Out::Redraw(x)), Some(Out::Redraw(y))) => x == y,
        (None, None) => true,
        _ => false,
    }
}

#[test]
fn what_is_to_be_drawn() {
    let draw = variant(1114647556, rect_elm(1, 2, 10, 20));
    let redraw = variant(4271367479, IdlValue::Vec(vec![named("a", 1), named("b", 2)]));
    let drawn = Some(Out::Draw(the_rect(1, 2)));
    let redrawn = Some(Out::Redraw(vec![
        (name_of_str("a"), the_rect(1, 0)),
        (name_of_str("b"), the_rect(2, 0)),
    ]));
    assert!(same_out(&get_render_out(&draw), &drawn));
    assert!(same_out(&get_render_out(&redraw), &redrawn));
    assert!(same_out(&get_render_out(&variant(1, num(0))), &None));
    assert!(same_out(&get_render_out(&variant(1114647556, num(0))), &None));
    assert!(same_out(&get_render_out(&variant(4271367479, num(0))), &None));
    assert!(same_out(&get_render_out(&num(0)), &None));
    assert_eq!(
        get_render_named_elms(&IdlValue::Vec(vec![named("a", 1)])),
        Some(vec![(name_of_str("a"), the_rect(1, 0))])
    );
    assert_eq!(get_render_named_elms(&num(0)), None);
    assert_eq!(get_render_named_elms_(&vec![named("a", 1), num(0)]), None);
    assert_eq!(
        get_render_named_elms_(&vec![record(vec![num(0), rect_elm(1, 0, 10, 20)])]),
        None
    );
    assert_eq!(get_render_named_elms_(&vec![record(vec![num(0)])]), None);
    // A result is read the same whether it is `ok` or `err`.
    let ok = |v: IdlValue| variant(24860, v);
    let err = |v: IdlValue| variant(5048165, v);
    assert!(same_out(
        &get_result_render_out(&ok(variant(1114647556, rect_elm(1, 2, 10, 20)))),
        &drawn
    ));
    assert!(same_out(
        &get_result_render_out(&err(variant(1114647556, rect_elm(1, 2, 10, 20)))),
        &drawn
    ));
    assert!(same_out(&get_result_render_out(&variant(1, num(0))), &None));
    assert!(same_out(&get_result_render_out(&draw), &None));
    // Of several results the last that asks for anything counts.
    let vs = vec![
        ok(variant(1114647556, rect_elm(1, 2, 10, 20))),
        num(0),
        err(variant(4271367479, IdlValue::Vec(vec![named("a", 1), named("b", 2)]))),
        ok(num(0)),
    ];
    assert!(same_out(&find_render_out(&vs), &redrawn));
    assert!(same_out(&find_render_out(&vec![num(0), ok(num(1))]), &None));
    assert!(same_out(&find_render_out(&vec![]), &None));
    assert!(same_out(&find_render_out(&vs[0..2].iter().map(copy).collect()), &drawn));
}

fn copy(v: &IdlValue) -> IdlValue {
    match v {
        IdlValue::Nat(n) => IdlValue::Nat(*n),
        IdlValue::Text(t) => IdlValue::Text(t.clone()),
        IdlValue::Record(fs) => IdlValue::Record(
            fs.iter().map(|f| IdlField { id: f.id, val: copy(&f.val) }).collect(),
        ),
        IdlValue::Variant(f) => IdlValue::Variant(Box::new(IdlField { id: f.id, val: copy(&f.val) })),
        IdlValue::Vec(vs) => IdlValue::Vec(vs.iter().map(copy).collect()),
        IdlValue::Other => IdlValue::Other,
    }
}

fn repl(display: Vec<(Name, Elm)>) -> Repl {
    Repl {
        config: Config {
            replica_url: "url".to_string(),
            canister_id: "cid".to_string(),
            menu_type: MenuType::Prim(PrimType::Unit),
        },
        display,
        history: vec![],
    }
}

#[test]
fn the_display_keeps_one_cell_with_what_it_was_bound_to_last() {
    let a = || name_of_str("a");
    let b = || name_of_str("b");
    let mut r = repl(vec![(a(), the_rect(1, 0)), (b(), the_rect(2, 0))]);
    r.update_display(&None);
    assert_eq!(r.display.len(), 2);
    r.update_display(&Some(Out::Draw(the_rect(9, 9))));
    assert_eq!(r.display.len(), 2);
    r.update_display(&Some(Out::Redraw(vec![
        (a(), the_rect(3, 0)),
        (b(), the_rect(4, 0)),
        (a(), the_rect(5, 0)),
    ])));
    assert_eq!(r.display.len(), 1);
    let (name, elm) = &r.display[0];
    assert!(
        (*name == a() && *elm == the_rect(5, 0)) || (*name == b() && *elm == the_rect(4, 0))
    );
    assert_eq!(r.config.replica_url, "url");
    let mut r = repl(vec![(a(), the_rect(1, 0))]);
    r.update_display(&Some(Out::Redraw(vec![])));
    assert_eq!(r.display, vec![(a(), the_rect(1, 0))]);
    let mut r = repl(vec![]);
    r.update_display(&Some(Out::Redraw(vec![])));
    assert_eq!(r.display.len(), 0);
    r.update_display(&Some(Out::Redraw(vec![(b(), the_rect(1, 0)), (b(), the_rect(2, 0))])));
    assert_eq!(r.display, vec![(b(), the_rect(2, 0))]);
}

#[test]
fn the_log_nests_events() {
    let mut ctx = Context {
        agent: Agent::Editor,
        edges: vec![],
        stack: Stack(vec![]),
        store: Store(vec![]),
        log_buf: vec![LogEvent::DirtyIncomingTo(name_of_str("before"), vec![])],
        log_stack: vec![],
    };
    begin_log_event(&mut ctx);
    assert_eq!(ctx.log_buf.len(), 0);
    assert_eq!(ctx.log_stack.len(), 1);
    begin_log_event(&mut ctx);
    end_log_event(&mut ctx, LogEventTag::CleanThunk(name_of_str("inner"), true));
    assert_eq!(ctx.log_buf.len(), 1);
    end_log_event(&mut ctx, LogEventTag::Put(name_of_str("outer"), Media::Void));
    assert_eq!(ctx.log_stack.len(), 0);
    assert_eq!(ctx.log_buf.len(), 2);
    assert!(matches!(&ctx.log_buf[0], LogEvent::DirtyIncomingTo(n, body) if *n == name_of_str("before") && body.is_empty()));
    match &ctx.log_buf[1] {
        LogEvent::Put(n, Media::Void, body) => {
            assert_eq!(*n, name_of_str("outer"));
            assert_eq!(body.len(), 1);
            assert!(matches!(&body[0], LogEvent::CleanThunk(n, true, inner) if *n == name_of_str("inner") && inner.is_empty()));
        }
        _ => panic!("expected a put"),
    }
    assert_eq!(ctx.agent, Agent::Editor);
    ctx.stack.push(name_of_str("s"));
    ctx.stack.push(name_of_str("t"));
    assert_eq!(ctx.stack.pop(), Some(name_of_str("t")));
    assert_eq!(ctx.stack.pop(), Some(name_of_str("s")));
    assert_eq!(ctx.stack.pop(), None);
}

#[test]
fn every_kind_of_event_keeps_what_it_was_told() {
    let n = || name_of_str("n");
    assert!(matches!(log_event(LogEventTag::Put(n(), Media::Void), vec![]), LogEvent::Put(..)));
    assert!(matches!(
        log_event(LogEventTag::DirtyIncomingTo(n()), vec![]),
        LogEvent::DirtyIncomingTo(..)
    ));
    assert!(matches!(
        log_event(LogEventTag::CleanEdgeTo(n(), false), vec![]),
        LogEvent::CleanEdgeTo(_, false, _)
    ));
    assert!(matches!(
        log_event(LogEventTag::CleanThunk(n(), true), vec![]),
        LogEvent::CleanThunk(_, true, _)
    ));
    assert!(matches!(
        log_event(LogEventTag::EvalThunk(n(), Media::Name(n())), vec![]),
        LogEvent::EvalThunk(_, Media::Name(_), _)
    ));
}

#[test]
fn values_that_cannot_be_read_are_refused_whole() {
    let ok = |v: IdlValue| variant(24860, v);
    let draw = |v: IdlValue| ok(variant(1114647556, v));
    let good = draw(rect_elm(1, 2, 10, 20));
    assert!(result_is_readable(&good));
    assert!(result_is_readable(&num(0)));
    assert!(result_is_readable(&variant(1, record(vec![]))));
    // A rectangle whose position has one field only.
    let short = variant(
        1269255460,
        record(vec![record(vec![dim(1, 1), record(vec![num(1)])]), closed(1, 2, 3)]),
    );
    assert!(!result_is_readable(&draw(short)));
    // A text with three signs that have no glyph.
    assert!(!result_is_readable(&draw(text_elm("---", 1))));
    assert!(result_is_readable(&draw(text_elm("abc", 1))));
    // A text whose attributes hold a size of glyphs with one field only.
    let atts = record(vec![closed(9, 9, 9), num(1), flow_atts(), no_fill(), record(vec![num(5)])]);
    let text = variant(1291439277, record(vec![IdlValue::Text("a".to_string()), atts]));
    assert!(!result_is_readable(&draw(text)));
    // Inside a node, what comes after a child that is no element is not read.
    let short_again = || {
        variant(
            1269255460,
            record(vec![record(vec![dim(1, 1), record(vec![num(1)])]), closed(1, 2, 3)]),
        )
    };
    assert!(result_is_readable(&draw(node_elm(vec![num(0), short_again()]))));
    assert!(!result_is_readable(&draw(node_elm(vec![rect_elm(1, 1, 1, 1), short_again()]))));
    let redraw = |cells: Vec<IdlValue>| ok(variant(4271367479, IdlValue::Vec(cells)));
    assert!(result_is_readable(&redraw(vec![named("a", 1)])));
    assert!(!result_is_readable(&redraw(vec![
        named("a", 1),
        record(vec![IdlValue::Text("b".to_string()), short_again()])
    ])));
    assert!(result_is_readable(&redraw(vec![
        num(0),
        record(vec![IdlValue::Text("b".to_string()), short_again()])
    ])));

    let drawn = Some(Out::Draw(the_rect(1, 2)));
    match try_find_render_out(&vec![num(0), draw(rect_elm(1, 2, 10, 20))]) {
        Some(found) => assert!(same_out(&found, &drawn)),
        None => panic!("expected the values to be read"),
    }
    assert!(matches!(try_find_render_out(&vec![]), Some(None)));
    assert!(try_find_render_out(&vec![draw(rect_elm(1, 2, 10, 20)), draw(short_again())])
        .is_none());
}
