//! What the menu editor shows: the focus in detail with its schema, inside
//! the frames of the context.

use crate::menu::model::{Arm, Choice, Context, PrimType, Schema, Slot, Tree, Zipper};
use crate::menu::text::{
    bool_text, debug_text, int_text, is_printable, name_text, nat_text, prim_text, printable,
    push_bool, push_int, push_nat, push_quoted,
};
use crate::menu::{
    arms_model, fields_model, opt_arm_model, slots_model, trees_model, types_model, Label,
    LabelChoice, MenuCtx, MenuState, MenuTree, MenuType,
};
use crate::render::pen::{
    blank, framed, text_view, with_all, with_elm, with_frame, with_name, with_text, Drawn, Pen,
};
use crate::render::{FlowAtts, FrameType, Render, TextAtts};
use crate::types::lang::{Dir2D, Name, NameView};
use crate::types::render::{Color, Dim, ElmView, Fill};
use vstd::prelude::*;

verus! {

// ---------------------------------------------------------------------------
// Looks

pub open spec fn flow_of(dir: Dir2D, pad: usize) -> FrameType {
    FrameType::Flow(FlowAtts { dir, intra_pad: pad, inter_pad: pad })
}

pub open spec fn horz() -> FrameType {
    flow_of(Dir2D::Right, 2)
}

pub open spec fn vert() -> FrameType {
    flow_of(Dir2D::Down, 2)
}

pub open spec fn typ_horz() -> FrameType {
    flow_of(Dir2D::Right, 1)
}

pub open spec fn typ_vert() -> FrameType {
    flow_of(Dir2D::Down, 1)
}

/// Text of the given zoom and fills, in glyphs of five by five that follow
/// one another rightward with a padding of one.
pub open spec fn atts_of(zoom: usize, fg_fill: Fill, bg_fill: Fill) -> TextAtts {
    TextAtts {
        zoom,
        fg_fill,
        bg_fill,
        glyph_dim: Dim { width: 5, height: 5 },
        glyph_flow: FlowAtts { dir: Dir2D::Right, intra_pad: 1, inter_pad: 1 },
    }
}

pub open spec fn shade(r: usize, g: usize, b: usize) -> Fill {
    Fill::Closed(Color::RGB(r, g, b))
}

pub open spec fn outline(r: usize, g: usize, b: usize) -> Fill {
    Fill::Open(Color::RGB(r, g, b), 1)
}

pub open spec fn kw_atts() -> TextAtts {
    atts_of(3, shade(255, 255, 255), Fill::Empty)
}

pub open spec fn msg_atts() -> TextAtts {
    atts_of(2, shade(200, 200, 255), Fill::Empty)
}

pub open spec fn typ_lab_atts() -> TextAtts {
    atts_of(2, shade(200, 255, 255), Fill::Empty)
}

pub open spec fn typ_sym_atts() -> TextAtts {
    atts_of(2, shade(180, 200, 200), Fill::Empty)
}

pub open spec fn text_atts() -> TextAtts {
    atts_of(3, shade(200, 200, 200), Fill::Empty)
}

pub open spec fn blank_atts() -> TextAtts {
    atts_of(3, shade(255, 200, 200), shade(100, 0, 0))
}

pub open spec fn cursor_atts() -> TextAtts {
    atts_of(3, shade(255, 255, 255), Fill::Empty)
}

pub open spec fn ctx_box_fill() -> Fill {
    outline(255, 100, 255)
}

pub open spec fn tree_box_fill() -> Fill {
    outline(50, 100, 50)
}

pub open spec fn detailed_tree_box_fill() -> Fill {
    outline(100, 255, 100)
}

pub open spec fn active_cursor_fill() -> Fill {
    outline(255, 255, 255)
}

pub open spec fn choice_box_fill() -> Fill {
    outline(255, 255, 255)
}

fn flow(dir: Dir2D, pad: usize) -> (r: FrameType)
    ensures
        r == flow_of(dir, pad),
{
    FrameType::Flow(FlowAtts { dir, intra_pad: pad, inter_pad: pad })
}

fn atts(zoom: usize, fg_fill: Fill, bg_fill: Fill) -> (r: TextAtts)
    ensures
        r == atts_of(zoom, fg_fill, bg_fill),
{
    TextAtts {
        zoom,
        fg_fill,
        bg_fill,
        glyph_dim: Dim { width: 5, height: 5 },
        glyph_flow: FlowAtts { dir: Dir2D::Right, intra_pad: 1, inter_pad: 1 },
    }
}

fn closed(r: usize, g: usize, b: usize) -> (f: Fill)
    ensures
        f == shade(r, g, b),
{
    Fill::Closed(Color::RGB(r, g, b))
}

fn open(r: usize, g: usize, b: usize) -> (f: Fill)
    ensures
        f == outline(r, g, b),
{
    Fill::Open(Color::RGB(r, g, b), 1)
}

fn kw() -> (r: TextAtts)
    ensures
        r == kw_atts(),
{
    atts(3, closed(255, 255, 255), Fill::Empty)
}

fn msg() -> (r: TextAtts)
    ensures
        r == msg_atts(),
{
    atts(2, closed(200, 200, 255), Fill::Empty)
}

fn typ_lab() -> (r: TextAtts)
    ensures
        r == typ_lab_atts(),
{
    atts(2, closed(200, 255, 255), Fill::Empty)
}

fn typ_sym() -> (r: TextAtts)
    ensures
        r == typ_sym_atts(),
{
    atts(2, closed(180, 200, 200), Fill::Empty)
}

fn plain() -> (r: TextAtts)
    ensures
        r == text_atts(),
{
    atts(3, closed(200, 200, 200), Fill::Empty)
}

fn blank_look() -> (r: TextAtts)
    ensures
        r == blank_atts(),
{
    atts(3, closed(255, 200, 200), closed(100, 0, 0))
}

fn cursor() -> (r: TextAtts)
    ensures
        r == cursor_atts(),
{
    atts(3, closed(255, 255, 255), Fill::Empty)
}

// ---------------------------------------------------------------------------
// Labels

/// The label of a field of a record: `*`, the name, `=`.
pub open spec fn product_label(acc: Drawn, l: NameView) -> Drawn {
    with_text(with_name(with_text(acc, "*"@, kw_atts()), l, text_atts()), "="@, kw_atts())
}

/// The label of the chosen arm of a union: `#`, the name, `=`.
pub open spec fn choice_label(acc: Drawn, l: NameView) -> Drawn {
    with_text(with_name(with_text(acc, "#"@, kw_atts()), l, text_atts()), "="@, kw_atts())
}

/// The label of an arm in the detailed view of a union: `>` before the
/// chosen arm and a space before any other, then `#`, the name, `=`.
pub open spec fn variant_label(acc: Drawn, chosen: bool, l: NameView) -> Drawn {
    choice_label(
        with_text(
            acc,
            if chosen {
                ">"@
            } else {
                " "@
            },
            cursor_atts(),
        ),
        l,
    )
}

fn draw_product_label(pen: &mut Pen, label: &Label)
    ensures
        final(pen)@ == product_label(old(pen)@, label@),
{
    pen.str("*", &kw());
    pen.name(label, &plain());
    pen.str("=", &kw());
}

fn draw_choice_label(pen: &mut Pen, label: &Label)
    ensures
        final(pen)@ == choice_label(old(pen)@, label@),
{
    pen.str("#", &kw());
    pen.name(label, &plain());
    pen.str("=", &kw());
}

fn draw_variant_label(pen: &mut Pen, is_chosen: bool, label: &Label)
    ensures
        final(pen)@ == variant_label(old(pen)@, is_chosen, label@),
{
    if is_chosen {
        pen.str(">", &cursor());
    } else {
        pen.str(" ", &cursor());
    }
    draw_choice_label(pen, label);
}

// ---------------------------------------------------------------------------
// Trees

/// A tree as one frame with the given fill around its body.
pub open spec fn tree_drawn(acc: Drawn, t: Tree, detailed: bool, box_fill: Fill) -> Drawn
    decreases t, 1nat,
{
    with_frame(acc, horz(), box_fill, tree_body(t, detailed))
}

/// The body of a tree.
///
/// A record is a column of rows, each the label of a field and its tree. A
/// union that is not shown in detail is its chosen arm with its label, or
/// three underscores where none is chosen; in detail it is a line that says
/// so, and a column of all its arms. An option is a question mark where it
/// is present, and its payload. A sequence and a tuple are rows of their
/// trees. A blank is three underscores. A leaf is its text.
pub open spec fn tree_body(t: Tree, detailed: bool) -> Drawn
    decreases t, 0nat,
{
    match t {
        Tree::Product(arms) => with_frame(blank(), vert(), Fill::Empty, product_rows(arms, arms.len())),
        Tree::Variant(c) => with_frame(blank(), vert(), Fill::Empty, choice_drawn(*c, detailed)),
        Tree::Option(present, inner, _) => tree_drawn(
            if present {
                with_text(blank(), "?"@, text_atts())
            } else {
                blank()
            },
            *inner,
            false,
            tree_box_fill(),
        ),
        Tree::Vec(ts, _) => with_frame(blank(), horz(), Fill::Empty, trees_drawn(ts, ts.len())),
        Tree::Tup(slots) => with_frame(blank(), horz(), Fill::Empty, slots_drawn(slots, slots.len())),
        Tree::Blank(_) => with_text(blank(), "___"@, blank_atts()),
        Tree::Nat(n) => with_text(blank(), nat_text(n as nat), text_atts()),
        Tree::Int(i) => with_text(blank(), int_text(i as int), text_atts()),
        Tree::Bool(b) => with_text(blank(), bool_text(b), text_atts()),
        Tree::Text(s) => with_text(blank(), debug_text(s), text_atts()),
        Tree::Unit => with_text(blank(), "()"@, text_atts()),
        Tree::Null => with_text(blank(), "null"@, text_atts()),
    }
}

/// A union, in detail or not.
pub open spec fn choice_drawn(c: Choice, detailed: bool) -> Drawn
    decreases c, 1nat,
{
    if detailed {
        with_frame(choice_line(c.choice is Some), vert(), choice_box_fill(), choice_rows(c))
    } else {
        match c.choice {
            Some(a) => with_frame(
                blank(),
                horz(),
                Fill::Empty,
                tree_drawn(choice_label(blank(), a.0), a.1, false, tree_box_fill()),
            ),
            None => with_text(blank(), "___"@, blank_atts()),
        }
    }
}

/// The line above the arms of a union in detail: it says `choice:`, and
/// where no arm is chosen it asks for one.
pub open spec fn choice_line(chosen: bool) -> Drawn {
    with_frame(
        blank(),
        horz(),
        Fill::Empty,
        if chosen {
            with_text(blank(), "choice:"@, msg_atts())
        } else {
            with_text(
                with_text(with_text(blank(), "choice:"@, msg_atts()), "___"@, blank_atts()),
                " Please, choose one below (Up/Down)"@,
                msg_atts(),
            )
        },
    )
}

/// All the arms of a union in order, the chosen one marked.
pub open spec fn choice_rows(c: Choice) -> Drawn
    decreases c, 0nat,
{
    variant_rows(
        match c.choice {
            Some(a) => with_frame(
                variant_rows(blank(), c.before, c.before.len()),
                horz(),
                Fill::Empty,
                tree_drawn(variant_label(blank(), true, a.0), a.1, false, tree_box_fill()),
            ),
            None => variant_rows(blank(), c.before, c.before.len()),
        },
        c.after,
        c.after.len(),
    )
}

/// The rows of the first `n` fields of a record.
pub open spec fn product_rows(arms: Seq<Arm>, n: nat) -> Drawn
    decreases arms, n,
{
    if n == 0 || n > arms.len() {
        blank()
    } else {
        with_frame(
            product_rows(arms, (n - 1) as nat),
            horz(),
            Fill::Empty,
            tree_drawn(product_label(blank(), arms[n - 1].0), arms[n - 1].1, false, tree_box_fill()),
        )
    }
}

/// After `acc`, the rows of the first `n` arms, none of them chosen.
pub open spec fn variant_rows(acc: Drawn, arms: Seq<Arm>, n: nat) -> Drawn
    decreases arms, n,
{
    if n == 0 || n > arms.len() {
        acc
    } else {
        with_frame(
            variant_rows(acc, arms, (n - 1) as nat),
            horz(),
            Fill::Empty,
            tree_drawn(
                variant_label(blank(), false, arms[n - 1].0),
                arms[n - 1].1,
                false,
                tree_box_fill(),
            ),
        )
    }
}

/// The first `n` trees of a sequence, one after the other.
pub open spec fn trees_drawn(ts: Seq<Tree>, n: nat) -> Drawn
    decreases ts, n,
{
    if n == 0 || n > ts.len() {
        blank()
    } else {
        tree_drawn(trees_drawn(ts, (n - 1) as nat), ts[n - 1], false, tree_box_fill())
    }
}

/// The first `n` trees of a tuple, one after the other.
pub open spec fn slots_drawn(slots: Seq<Slot>, n: nat) -> Drawn
    decreases slots, n,
{
    if n == 0 || n > slots.len() {
        blank()
    } else {
        tree_drawn(slots_drawn(slots, (n - 1) as nat), slots[n - 1].0, false, tree_box_fill())
    }
}

fn draw_variant_rows(pen: &mut Pen, arms: &Vec<(Label, MenuTree, MenuType)>)
    ensures
        final(pen)@ == variant_rows(old(pen)@, arms_model(arms@), arms@.len() as nat),
    decreases arms,
{
    let ghost ms = arms_model(arms@);
    let mut i: usize = 0;
    while i < arms.len()
        invariant
            ms == arms_model(arms@),
            ms.len() == arms@.len(),
            i <= arms.len(),
            pen@ == variant_rows(old(pen)@, ms, i as nat),
        decreases arms.len() - i,
    {
        let mut item = Pen::new();
        draw_variant_label(&mut item, false, &arms[i].0);
        draw_tree(&mut item, &arms[i].1, false, open(50, 100, 50));
        pen.frame(flow(Dir2D::Right, 2), Fill::Empty, item);
        i += 1;
    }
}

fn draw_product_rows(fields: &Vec<(Label, MenuTree, MenuType)>) -> (rows: Pen)
    ensures
        rows@ == product_rows(arms_model(fields@), fields@.len() as nat),
    decreases fields,
{
    let ghost arms = arms_model(fields@);
    let mut rows = Pen::new();
    let mut i: usize = 0;
    while i < fields.len()
        invariant
            arms == arms_model(fields@),
            arms.len() == fields@.len(),
            i <= fields.len(),
            rows@ == product_rows(arms, i as nat),
        decreases fields.len() - i,
    {
        let mut item = Pen::new();
        draw_product_label(&mut item, &fields[i].0);
        draw_tree(&mut item, &fields[i].1, false, open(50, 100, 50));
        rows.frame(flow(Dir2D::Right, 2), Fill::Empty, item);
        i += 1;
    }
    rows
}

fn draw_trees(trees: &Vec<MenuTree>) -> (row: Pen)
    ensures
        row@ == trees_drawn(trees_model(trees@), trees@.len() as nat),
    decreases trees,
{
    let ghost ts = trees_model(trees@);
    let mut row = Pen::new();
    let mut i: usize = 0;
    while i < trees.len()
        invariant
            ts == trees_model(trees@),
            ts.len() == trees@.len(),
            i <= trees.len(),
            row@ == trees_drawn(ts, i as nat),
        decreases trees.len() - i,
    {
        draw_tree(&mut row, &trees[i], false, open(50, 100, 50));
        i += 1;
    }
    row
}

fn draw_slots(items: &Vec<(MenuTree, MenuType)>) -> (row: Pen)
    ensures
        row@ == slots_drawn(slots_model(items@), items@.len() as nat),
    decreases items,
{
    let ghost slots = slots_model(items@);
    let mut row = Pen::new();
    let mut i: usize = 0;
    while i < items.len()
        invariant
            slots == slots_model(items@),
            slots.len() == items@.len(),
            i <= items.len(),
            row@ == slots_drawn(slots, i as nat),
        decreases items.len() - i,
    {
        draw_tree(&mut row, &items[i].0, false, open(50, 100, 50));
        i += 1;
    }
    row
}

fn draw_choice_line(chosen: bool) -> (pen: Pen)
    ensures
        pen@ == choice_line(chosen),
{
    let mut line = Pen::new();
    line.str("choice:", &msg());
    if !chosen {
        line.str("___", &blank_look());
        line.str(" Please, choose one below (Up/Down)", &msg());
    }
    let mut pen = Pen::new();
    pen.frame(flow(Dir2D::Right, 2), Fill::Empty, line);
    pen
}

fn draw_choice_rows(ch: &LabelChoice) -> (rows: Pen)
    ensures
        rows@ == choice_rows(ch@),
    decreases ch, 0nat,
{
    let mut rows = Pen::new();
    draw_variant_rows(&mut rows, &ch.before);
    match &ch.choice {
        Some(a) => {
            let mut item = Pen::new();
            draw_variant_label(&mut item, true, &a.0);
            draw_tree(&mut item, &a.1, false, open(50, 100, 50));
            rows.frame(flow(Dir2D::Right, 2), Fill::Empty, item);
        },
        None => {},
    }
    draw_variant_rows(&mut rows, &ch.after);
    rows
}

fn draw_choice(ch: &LabelChoice, show_detailed: bool) -> (pen: Pen)
    ensures
        pen@ == choice_drawn(ch@, show_detailed),
    decreases ch, 1nat,
{
    if show_detailed {
        let mut pen = draw_choice_line(ch.choice.is_some());
        let rows = draw_choice_rows(ch);
        pen.frame(flow(Dir2D::Down, 2), open(255, 255, 255), rows);
        pen
    } else {
        let mut pen = Pen::new();
        match &ch.choice {
            Some(a) => {
                let mut item = Pen::new();
                draw_choice_label(&mut item, &a.0);
                draw_tree(&mut item, &a.1, false, open(50, 100, 50));
                pen.frame(flow(Dir2D::Right, 2), Fill::Empty, item);
            },
            None => {
                pen.str("___", &blank_look());
            },
        }
        pen
    }
}

fn draw_leaf(tree: &MenuTree) -> (body: Pen)
    requires
        !(tree is Product),
        !(tree is Variant),
        !(tree is Option),
        !(tree is Vec),
        !(tree is Tup),
    ensures
        body@ == tree_body(tree@, false),
        body@ == tree_body(tree@, true),
{
    let mut body = Pen::new();
    match tree {
        MenuTree::Nat(n) => {
            let mut s = String::new();
            push_nat(&mut s, *n);
            assert(s@ =~= nat_text(*n as nat));
            body.text(&s, &plain());
        },
        MenuTree::Int(i) => {
            let mut s = String::new();
            push_int(&mut s, *i);
            assert(s@ =~= int_text(*i as int));
            body.text(&s, &plain());
        },
        MenuTree::Bool(b) => {
            let mut s = String::new();
            push_bool(&mut s, *b);
            assert(s@ =~= bool_text(*b));
            body.text(&s, &plain());
        },
        MenuTree::Text(t) => {
            let mut s = String::new();
            push_quoted(&mut s, t);
            assert(s@ =~= debug_text(t@));
            body.text(&s, &plain());
        },
        MenuTree::Unit => {
            body.str("()", &plain());
        },
        MenuTree::Null => {
            body.str("null", &plain());
        },
        _ => {
            body.str("___", &blank_look());
        },
    }
    body
}

fn draw_body(tree: &MenuTree, show_detailed: bool) -> (body: Pen)
    ensures
        body@ == tree_body(tree@, show_detailed),
    decreases tree, 0nat,
{
    match tree {
        MenuTree::Product(fields) => {
            assert(tree@->Product_0 == arms_model(fields@));
            let rows = draw_product_rows(fields);
            let mut body = Pen::new();
            body.frame(flow(Dir2D::Down, 2), Fill::Empty, rows);
            body
        },
        MenuTree::Variant(ch) => {
            assert(*tree@->Variant_0 == ch@);
            let inner = draw_choice(ch, show_detailed);
            let mut body = Pen::new();
            body.frame(flow(Dir2D::Down, 2), Fill::Empty, inner);
            body
        },
        MenuTree::Option(flag, inner, _) => {
            let mut body = Pen::new();
            if *flag {
                body.str("?", &plain());
            }
            draw_tree(&mut body, inner, false, open(50, 100, 50));
            body
        },
        MenuTree::Vec(trees, _) => {
            assert(tree@->Vec_0 == trees_model(trees@));
            let row = draw_trees(trees);
            let mut body = Pen::new();
            body.frame(flow(Dir2D::Right, 2), Fill::Empty, row);
            body
        },
        MenuTree::Tup(items) => {
            assert(tree@->Tup_0 == slots_model(items@));
            let row = draw_slots(items);
            let mut body = Pen::new();
            body.frame(flow(Dir2D::Right, 2), Fill::Empty, row);
            body
        },
        _ => draw_leaf(tree),
    }
}

/// Draws a tree; in detail, a union shows all its arms.
pub fn draw_tree(pen: &mut Pen, tree: &MenuTree, show_detailed: bool, box_fill: Fill)
    ensures
        final(pen)@ == tree_drawn(old(pen)@, tree@, show_detailed, box_fill),
    decreases tree, 1nat,
{
    let body = draw_body(tree, show_detailed);
    pen.frame(flow(Dir2D::Right, 2), box_fill, body);
}

// ---------------------------------------------------------------------------
// Schemas

/// The node of the text of a label, where the label can be written.
pub open spec fn label_view(l: NameView, ta: TextAtts) -> Option<ElmView> {
    if printable(l) {
        text_view(name_text(l), ta)
    } else {
        None
    }
}

/// After `acc`, a schema.
///
/// A primitive is its name. A union and a record are columns with one row
/// for each field: the row opens with `{ ` in the first and `; ` in every
/// other, a union marks the label with `#`, then come the label, a colon, and
/// the schema of the field; the last row closes with ` }`. A record without
/// fields is `{ }`; a union without arms cannot be drawn. An option is `?`
/// and a sequence `[`..`]` around the schema of the payload; a tuple is its
/// schemas between round brackets with `, ` between them; a procedure is its
/// arguments and its results like two tuples with an arrow between.
pub open spec fn type_drawn(acc: Drawn, s: Schema) -> Drawn
    decreases s, 1nat,
{
    match s {
        Schema::Prim(p) => with_text(acc, prim_text(p), typ_lab_atts()),
        Schema::Variant(fs) => if fs.len() == 0 {
            None
        } else {
            with_frame(acc, typ_vert(), Fill::Empty, field_rows(fs, fs.len(), true))
        },
        Schema::Product(fs) => with_frame(
            acc,
            typ_vert(),
            Fill::Empty,
            if fs.len() > 0 {
                field_rows(fs, fs.len(), false)
            } else {
                with_text(blank(), "{ }"@, typ_sym_atts())
            },
        ),
        Schema::Var(n) => with_name(acc, n, typ_lab_atts()),
        Schema::Option(t) => with_frame(
            acc,
            typ_horz(),
            Fill::Empty,
            type_drawn(with_text(blank(), "?"@, typ_sym_atts()), *t),
        ),
        Schema::Vec(t) => with_frame(
            acc,
            typ_horz(),
            Fill::Empty,
            with_text(type_drawn(with_text(blank(), "["@, typ_sym_atts()), *t), "]"@, typ_sym_atts()),
        ),
        Schema::Tup(ts) => with_frame(
            acc,
            typ_horz(),
            Fill::Empty,
            with_text(
                types_drawn(with_text(blank(), "("@, typ_sym_atts()), ts, ts.len()),
                ")"@,
                typ_sym_atts(),
            ),
        ),
        Schema::Func(args, rets) => with_frame(
            acc,
            typ_horz(),
            Fill::Empty,
            with_text(
                types_drawn(
                    with_text(
                        with_text(
                            with_text(
                                types_drawn(
                                    with_text(blank(), "("@, typ_sym_atts()),
                                    args,
                                    args.len(),
                                ),
                                ")"@,
                                typ_sym_atts(),
                            ),
                            "\u{2192}"@,
                            typ_sym_atts(),
                        ),
                        "("@,
                        typ_sym_atts(),
                    ),
                    rets,
                    rets.len(),
                ),
                ")"@,
                typ_sym_atts(),
            ),
        ),
    }
}

/// After `acc`, the first `n` schemas with `, ` between them.
pub open spec fn types_drawn(acc: Drawn, ts: Seq<Schema>, n: nat) -> Drawn
    decreases ts, n,
{
    if n == 0 || n > ts.len() {
        acc
    } else {
        let before = types_drawn(acc, ts, (n - 1) as nat);
        type_drawn(
            if n > 1 {
                with_text(before, ", "@, typ_sym_atts())
            } else {
                before
            },
            ts[n - 1],
        )
    }
}

/// The row of field `i`.
pub open spec fn field_row(fs: Seq<(NameView, Schema)>, i: int, marked: bool) -> Drawn
    decreases fs, 0nat,
{
    if 0 <= i < fs.len() {
        let opened = with_text(
            blank(),
            if i == 0 {
                "{ "@
            } else {
                "; "@
            },
            typ_sym_atts(),
        );
        let labelled = with_text(
            with_elm(
                if marked {
                    with_text(opened, "#"@, typ_sym_atts())
                } else {
                    opened
                },
                label_view(fs[i].0, typ_lab_atts()),
            ),
            if marked {
                ": "@
            } else {
                ":"@
            },
            typ_sym_atts(),
        );
        let typed = type_drawn(labelled, fs[i].1);
        if i == fs.len() - 1 {
            with_text(typed, " }"@, typ_sym_atts())
        } else {
            typed
        }
    } else {
        None
    }
}

/// The rows of the first `n` fields.
pub open spec fn field_rows(fs: Seq<(NameView, Schema)>, n: nat, marked: bool) -> Drawn
    decreases fs, n + 1,
{
    if n == 0 || n > fs.len() {
        blank()
    } else {
        with_frame(
            field_rows(fs, (n - 1) as nat, marked),
            typ_horz(),
            Fill::Empty,
            field_row(fs, n - 1, marked),
        )
    }
}

fn draw_label(pen: &mut Pen, label: &Label, ta: &TextAtts)
    ensures
        final(pen)@ == with_elm(old(pen)@, label_view(label@, *ta)),
{
    if is_printable(label) {
        let t = label.to_text();
        pen.text(&t, ta);
    } else {
        pen.fail();
    }
}

fn draw_field_rows(fields: &Vec<(Label, MenuType)>, marked: bool) -> (rows: Pen)
    ensures
        rows@ == field_rows(fields_model(fields@), fields@.len() as nat, marked),
    decreases fields,
{
    let ghost fs = fields_model(fields@);
    let mut rows = Pen::new();
    let mut i: usize = 0;
    while i < fields.len()
        invariant
            fs == fields_model(fields@),
            fs.len() == fields@.len(),
            i <= fields.len(),
            rows@ == field_rows(fs, i as nat, marked),
        decreases fields.len() - i,
    {
        let mut row = Pen::new();
        if i == 0 {
            row.str("{ ", &typ_sym());
        } else {
            row.str("; ", &typ_sym());
        }
        if marked {
            row.str("#", &typ_sym());
        }
        draw_label(&mut row, &fields[i].0, &typ_lab());
        if marked {
            row.str(": ", &typ_sym());
        } else {
            row.str(":", &typ_sym());
        }
        draw_type(&mut row, &fields[i].1);
        if i == fields.len() - 1 {
            row.str(" }", &typ_sym());
        }
        assert(row@ == field_row(fs, i as int, marked));
        rows.frame(flow(Dir2D::Right, 1), Fill::Empty, row);
        i += 1;
    }
    rows
}

fn draw_types(pen: &mut Pen, types: &Vec<MenuType>)
    ensures
        final(pen)@ == types_drawn(old(pen)@, types_model(types@), types@.len() as nat),
    decreases types,
{
    let ghost ts = types_model(types@);
    let mut i: usize = 0;
    while i < types.len()
        invariant
            ts == types_model(types@),
            ts.len() == types@.len(),
            i <= types.len(),
            pen@ == types_drawn(old(pen)@, ts, i as nat),
        decreases types.len() - i,
    {
        if i > 0 {
            pen.str(", ", &typ_sym());
        }
        draw_type(pen, &types[i]);
        i += 1;
    }
}

/// Draws a schema.
pub fn draw_type(pen: &mut Pen, typ: &MenuType)
    ensures
        final(pen)@ == type_drawn(old(pen)@, typ@),
    decreases typ,
{
    match typ {
        MenuType::Prim(p) => {
            let s = match p {
                PrimType::Unit => "()",
                PrimType::Null => "null",
                PrimType::Nat => "nat",
                PrimType::Int => "int",
                PrimType::Text => "text",
                PrimType::Bool => "bool",
            };
            pen.str(s, &typ_lab());
        },
        MenuType::Variant(fields) => {
            assert(typ@->Variant_0 == fields_model(fields@));
            assert(fields_model(fields@).len() == fields@.len());
            if fields.len() == 0 {
                pen.fail();
            } else {
                let rows = draw_field_rows(fields, true);
                pen.frame(flow(Dir2D::Down, 1), Fill::Empty, rows);
            }
        },
        MenuType::Product(fields) => {
            assert(typ@->Product_0 == fields_model(fields@));
            assert(fields_model(fields@).len() == fields@.len());
            let rows = if fields.len() > 0 {
                draw_field_rows(fields, false)
            } else {
                let mut p = Pen::new();
                p.str("{ }", &typ_sym());
                p
            };
            pen.frame(flow(Dir2D::Down, 1), Fill::Empty, rows);
        },
        MenuType::Var(n) => {
            pen.name(n, &typ_lab());
        },
        MenuType::Option(t) => {
            let mut inner = Pen::new();
            inner.str("?", &typ_sym());
            draw_type(&mut inner, t);
            pen.frame(flow(Dir2D::Right, 1), Fill::Empty, inner);
        },
        MenuType::Vec(t) => {
            let mut inner = Pen::new();
            inner.str("[", &typ_sym());
            draw_type(&mut inner, t);
            inner.str("]", &typ_sym());
            pen.frame(flow(Dir2D::Right, 1), Fill::Empty, inner);
        },
        MenuType::Tup(types) => {
            assert(typ@->Tup_0 == types_model(types@));
            let mut inner = Pen::new();
            inner.str("(", &typ_sym());
            draw_types(&mut inner, types);
            inner.str(")", &typ_sym());
            pen.frame(flow(Dir2D::Right, 1), Fill::Empty, inner);
        },
        MenuType::Func(ft) => {
            assert(typ@->Func_0 == types_model(ft.args@));
            assert(typ@->Func_1 == types_model(ft.rets@));
            let mut inner = Pen::new();
            inner.str("(", &typ_sym());
            draw_types(&mut inner, &ft.args);
            inner.str(")", &typ_sym());
            inner.str("\u{2192}", &typ_sym());
            inner.str("(", &typ_sym());
            draw_types(&mut inner, &ft.rets);
            inner.str(")", &typ_sym());
            pen.frame(flow(Dir2D::Right, 1), Fill::Empty, inner);
        },
    }
}

// ---------------------------------------------------------------------------
// Contexts

/// What was drawn inside one box of the context.
pub open spec fn boxed(inner: Drawn) -> Drawn {
    with_frame(blank(), horz(), ctx_box_fill(), inner)
}

/// After `acc`, one item for each of the first `n` slots: the tree of the
/// slot in the fill of the context.
pub open spec fn slot_items(acc: Drawn, slots: Seq<Slot>, n: nat) -> Drawn
    decreases n,
{
    if n == 0 || n > slots.len() {
        acc
    } else {
        with_frame(
            slot_items(acc, slots, (n - 1) as nat),
            horz(),
            Fill::Empty,
            tree_drawn(blank(), slots[n - 1].0, false, ctx_box_fill()),
        )
    }
}

/// After `acc`, one item for each of the first `n` arms: its label as the
/// field of a record, and its tree in the fill of the context.
pub open spec fn arm_items(acc: Drawn, arms: Seq<Arm>, n: nat) -> Drawn
    decreases n,
{
    if n == 0 || n > arms.len() {
        acc
    } else {
        with_frame(
            arm_items(acc, arms, (n - 1) as nat),
            horz(),
            Fill::Empty,
            tree_drawn(product_label(blank(), arms[n - 1].0), arms[n - 1].1, false, ctx_box_fill()),
        )
    }
}

/// The frames of the context drawn around `inner`, from the innermost
/// outward.
///
/// A frame of a tuple or a record is a box with a column of items: the
/// siblings before, the item that holds `inner`, and the siblings after; in
/// a record every item starts with the label of its field. A frame of a
/// union is a box with one item, the label of the arm and `inner`. At the
/// root `inner` is put into a column. Frames of options and of sequences
/// cannot be drawn.
pub open spec fn ctx_drawn(ctx: Context, inner: Drawn) -> Drawn
    decreases ctx,
{
    match ctx {
        Context::Root(_) => with_frame(blank(), vert(), Fill::Empty, inner),
        Context::Tup { before, outer, after } => ctx_drawn(
            *outer,
            boxed(
                with_frame(
                    blank(),
                    vert(),
                    Fill::Empty,
                    slot_items(
                        with_frame(
                            slot_items(blank(), before, before.len()),
                            horz(),
                            Fill::Empty,
                            inner,
                        ),
                        after,
                        after.len(),
                    ),
                ),
            ),
        ),
        Context::Product { before, outer, label, after } => ctx_drawn(
            *outer,
            boxed(
                with_frame(
                    blank(),
                    vert(),
                    Fill::Empty,
                    arm_items(
                        with_frame(
                            arm_items(blank(), before, before.len()),
                            horz(),
                            Fill::Empty,
                            with_all(product_label(blank(), label), inner),
                        ),
                        after,
                        after.len(),
                    ),
                ),
            ),
        ),
        Context::Variant { outer, label, .. } => ctx_drawn(
            *outer,
            boxed(
                with_frame(
                    blank(),
                    horz(),
                    Fill::Empty,
                    with_all(choice_label(blank(), label), inner),
                ),
            ),
        ),
        Context::Option { .. } => None,
        Context::Vec { .. } => None,
    }
}

/// What the editor shows: in a column, the frames of the context around the
/// box of the cursor, which holds the focus in detail and its schema.
pub open spec fn menu_drawn(z: Zipper) -> Drawn {
    with_frame(
        blank(),
        vert(),
        Fill::Empty,
        ctx_drawn(
            z.ctx,
            with_frame(
                blank(),
                vert(),
                active_cursor_fill(),
                type_drawn(tree_drawn(blank(), z.tree, true, detailed_tree_box_fill()), z.typ),
            ),
        ),
    )
}

fn draw_slot_items(pen: &mut Pen, slots: &Vec<(MenuTree, MenuType)>)
    ensures
        final(pen)@ == slot_items(old(pen)@, slots_model(slots@), slots@.len() as nat),
{
    let ghost ms = slots_model(slots@);
    let mut i: usize = 0;
    while i < slots.len()
        invariant
            ms == slots_model(slots@),
            ms.len() == slots@.len(),
            i <= slots.len(),
            pen@ == slot_items(old(pen)@, ms, i as nat),
        decreases slots.len() - i,
    {
        let mut item = Pen::new();
        draw_tree(&mut item, &slots[i].0, false, open(255, 100, 255));
        pen.frame(flow(Dir2D::Right, 2), Fill::Empty, item);
        i += 1;
    }
}

fn draw_arm_items(pen: &mut Pen, arms: &Vec<(Label, MenuTree, MenuType)>)
    ensures
        final(pen)@ == arm_items(old(pen)@, arms_model(arms@), arms@.len() as nat),
{
    let ghost ms = arms_model(arms@);
    let mut i: usize = 0;
    while i < arms.len()
        invariant
            ms == arms_model(arms@),
            ms.len() == arms@.len(),
            i <= arms.len(),
            pen@ == arm_items(old(pen)@, ms, i as nat),
        decreases arms.len() - i,
    {
        let mut item = Pen::new();
        draw_product_label(&mut item, &arms[i].0);
        draw_tree(&mut item, &arms[i].1, false, open(255, 100, 255));
        pen.frame(flow(Dir2D::Right, 2), Fill::Empty, item);
        i += 1;
    }
}

fn draw_boxed(inner: Pen) -> (pen: Pen)
    ensures
        pen@ == boxed(inner@),
{
    let mut pen = Pen::new();
    pen.frame(flow(Dir2D::Right, 2), open(255, 100, 255), inner);
    pen
}

/// Draws the frames of the context around what `inner` drew.
pub fn draw_ctx(ctx: &MenuCtx, inner: Pen) -> (pen: Pen)
    ensures
        pen@ == ctx_drawn(ctx@, inner@),
    decreases ctx,
{
    match ctx {
        MenuCtx::Root(_) => {
            let mut pen = Pen::new();
            pen.frame(flow(Dir2D::Down, 2), Fill::Empty, inner);
            pen
        },
        MenuCtx::Tup(sel) => {
            let mut items = Pen::new();
            draw_slot_items(&mut items, &sel.before);
            items.frame(flow(Dir2D::Right, 2), Fill::Empty, inner);
            draw_slot_items(&mut items, &sel.after);
            let mut column = Pen::new();
            column.frame(flow(Dir2D::Down, 2), Fill::Empty, items);
            draw_ctx(&sel.ctx, draw_boxed(column))
        },
        MenuCtx::Product(sel) => {
            let mut items = Pen::new();
            draw_arm_items(&mut items, &sel.before);
            let mut item = Pen::new();
            draw_product_label(&mut item, &sel.label);
            item.all(inner);
            items.frame(flow(Dir2D::Right, 2), Fill::Empty, item);
            draw_arm_items(&mut items, &sel.after);
            let mut column = Pen::new();
            column.frame(flow(Dir2D::Down, 2), Fill::Empty, items);
            draw_ctx(&sel.ctx, draw_boxed(column))
        },
        MenuCtx::Variant(sel) => {
            let mut item = Pen::new();
            draw_choice_label(&mut item, &sel.label);
            item.all(inner);
            let mut row = Pen::new();
            row.frame(flow(Dir2D::Right, 2), Fill::Empty, item);
            draw_ctx(&sel.ctx, draw_boxed(row))
        },
        MenuCtx::Option(_, _) => {
            let mut pen = Pen::new();
            pen.fail();
            pen
        },
        MenuCtx::Vec(_) => {
            let mut pen = Pen::new();
            pen.fail();
            pen
        },
    }
}

/// What the editor shows, where it can be drawn.
pub fn draw_menu(menu: &MenuState) -> (pen: Pen)
    ensures
        pen@ == menu_drawn(menu@),
{
    let mut cursor_box = Pen::new();
    draw_tree(&mut cursor_box, &menu.tree, true, open(100, 255, 100));
    draw_type(&mut cursor_box, &menu.tree_typ);
    let mut inner = Pen::new();
    inner.frame(flow(Dir2D::Down, 2), open(255, 255, 255), cursor_box);
    let around = draw_ctx(&menu.ctx, inner);
    let mut pen = Pen::new();
    pen.frame(flow(Dir2D::Down, 2), Fill::Empty, around);
    pen
}

/// Draws what the editor shows at the end of the present frame of `r`, and
/// says whether that was done. Nothing is drawn where the cursor is inside
/// an option or a sequence, where a label stands for a digest, where the
/// schema in focus holds a union without arms, or where the layout does not
/// fit the machine's numbers.
pub fn render_elms(menu: &MenuState, r: &mut Render) -> (done: bool)
    ensures
        match menu_drawn(menu@) {
            Some(es) => done && final(r)@ == old(r)@.with_all(es),
            None => !done && final(r)@ == old(r)@,
        },
{
    match draw_menu(menu).done() {
        Some(elms) => {
            r.add(elms);
            true
        },
        None => false,
    }
}

} // verus!
