//! Reading what a service answers: values of its interface description
//! taken as things to draw.

use crate::render::draw::{text_does_fit, text_fits, text_node};
use crate::render::{FlowAtts, NamedElms, Out, Render, TextAtts};
use crate::types::lang::{Atom, AtomView, Dir2D, Name, NameView};
use crate::types::render::{elms_model, Color, Dim, Elm, ElmView, Elms, Fill, Node, Pos, Rect};
use vstd::prelude::*;

verus! {

/// A value of an interface description, as far as the engine reads it.
#[derive(Debug)]
pub enum IdlValue {
    Nat(u64),
    Text(String),
    Record(Vec<IdlField>),
    Variant(Box<IdlField>),
    Vec(Vec<IdlValue>),
    /// Any value of another kind.
    Other,
}

/// A field of a record, or the arm of a variant: its number and its value.
#[derive(Debug)]
pub struct IdlField {
    pub id: u32,
    pub val: IdlValue,
}

pub enum IdlValueView {
    Nat(u64),
    Text(Seq<char>),
    Record(Seq<(u32, IdlValueView)>),
    Variant(u32, Box<IdlValueView>),
    Vec(Seq<IdlValueView>),
    Other,
}

pub open spec fn idl_fields_view(v: Seq<IdlField>) -> Seq<(u32, IdlValueView)>
    decreases v,
{
    Seq::new(v.len(), |i: int| if 0 <= i < v.len() { (v[i].id, v[i].val.model()) } else { arbitrary() })
}

pub open spec fn idl_values_view(v: Seq<IdlValue>) -> Seq<IdlValueView>
    decreases v,
{
    Seq::new(v.len(), |i: int| if 0 <= i < v.len() { v[i].model() } else { arbitrary() })
}

impl IdlValue {
    pub open spec fn model(self) -> IdlValueView
        decreases self,
    {
        match self {
            IdlValue::Nat(n) => IdlValueView::Nat(n),
            IdlValue::Text(t) => IdlValueView::Text(t@),
            IdlValue::Record(fs) => IdlValueView::Record(idl_fields_view(fs@)),
            IdlValue::Variant(f) => IdlValueView::Variant(f.id, Box::new(f.val.model())),
            IdlValue::Vec(vs) => IdlValueView::Vec(idl_values_view(vs@)),
            IdlValue::Other => IdlValueView::Other,
        }
    }
}

impl View for IdlValue {
    type V = IdlValueView;

    open spec fn view(&self) -> IdlValueView {
        self.model()
    }
}

/// What an `Out` stands for.
pub enum OutView {
    Draw(ElmView),
    Redraw(Seq<(NameView, ElmView)>),
}

pub open spec fn named_elms_model(v: Seq<(Name, Elm)>) -> Seq<(NameView, ElmView)> {
    Seq::new(v.len(), |i: int| (v[i].0@, v[i].1@))
}

impl View for Out {
    type V = OutView;

    open spec fn view(&self) -> OutView {
        match self {
            Out::Draw(e) => OutView::Draw(e@),
            Out::Redraw(es) => OutView::Redraw(named_elms_model(es@)),
        }
    }
}

// ---------------------------------------------------------------------------
// Numbers of the fields and arms that are read

pub open spec fn id_closed() -> u32 {
    240232876
}

pub open spec fn id_open() -> u32 {
    1236534218
}

pub open spec fn id_none() -> u32 {
    1225396920
}

pub open spec fn id_right() -> u32 {
    3915647964
}

pub open spec fn id_node() -> u32 {
    1225394690
}

pub open spec fn id_text() -> u32 {
    1291439277
}

pub open spec fn id_rect() -> u32 {
    1269255460
}

pub open spec fn id_draw() -> u32 {
    1114647556
}

pub open spec fn id_redraw() -> u32 {
    4271367479
}

pub open spec fn id_ok() -> u32 {
    24860
}

pub open spec fn id_err() -> u32 {
    5048165
}

// ---------------------------------------------------------------------------
// What each kind of value is read as

/// A number.
pub open spec fn nat_of(v: IdlValueView) -> Option<usize> {
    match v {
        IdlValueView::Nat(n) => Some(n as usize),
        _ => None,
    }
}

/// A text.
pub open spec fn text_of(v: IdlValueView) -> Option<Seq<char>> {
    match v {
        IdlValueView::Text(t) => Some(t),
        _ => None,
    }
}

/// A record can be read by the places of its first two fields.
pub open spec fn pair_ok(v: IdlValueView) -> bool {
    v matches IdlValueView::Record(fs) ==> fs.len() >= 2
}

/// A position: a record whose first two fields are the numbers `x` and `y`.
pub open spec fn pos_of(v: IdlValueView) -> Option<Pos> {
    match v {
        IdlValueView::Record(fs) => match (nat_of(fs[0].1), nat_of(fs[1].1)) {
            (Some(x), Some(y)) => Some(Pos { x: x as isize, y: y as isize }),
            _ => None,
        },
        _ => None,
    }
}

/// A size: a record whose first two fields are the numbers `height` and
/// `width`.
pub open spec fn dim_of(v: IdlValueView) -> Option<Dim> {
    match v {
        IdlValueView::Record(fs) => match (nat_of(fs[1].1), nat_of(fs[0].1)) {
            (Some(width), Some(height)) => Some(Dim { width, height }),
            _ => None,
        },
        _ => None,
    }
}

pub open spec fn rect_ok(v: IdlValueView) -> bool {
    v matches IdlValueView::Record(fs) ==> (fs.len() == 2 ==> pair_ok(fs[1].1) && pair_ok(fs[0].1))
}

/// A rectangle: a record of exactly a size and a position.
pub open spec fn rect_of(v: IdlValueView) -> Option<Rect> {
    match v {
        IdlValueView::Record(fs) => if fs.len() != 2 {
            None
        } else {
            match (pos_of(fs[1].1), dim_of(fs[0].1)) {
                (Some(pos), Some(dim)) => Some(Rect { pos, dim }),
                _ => None,
            }
        },
        _ => None,
    }
}

/// A colour: a record of exactly three numbers.
pub open spec fn color_of(v: IdlValueView) -> Option<Color> {
    match v {
        IdlValueView::Record(fs) => if fs.len() != 3 {
            None
        } else {
            match (nat_of(fs[0].1), nat_of(fs[1].1), nat_of(fs[2].1)) {
                (Some(r), Some(g), Some(b)) => Some(Color::RGB(r, g, b)),
                _ => None,
            }
        },
        _ => None,
    }
}

/// A colour and a number: a record of exactly these two.
pub open spec fn color_nat_of(v: IdlValueView) -> Option<(Color, usize)> {
    match v {
        IdlValueView::Record(fs) => if fs.len() != 2 {
            None
        } else {
            match (color_of(fs[0].1), nat_of(fs[1].1)) {
                (Some(c), Some(n)) => Some((c, n)),
                _ => None,
            }
        },
        _ => None,
    }
}

/// The fill that an arm stands for: `closed` with a colour, `open` with a
/// colour and a border width, or `none`.
pub open spec fn fill_of_field(id: u32, v: IdlValueView) -> Option<Fill> {
    if id == id_closed() {
        match color_of(v) {
            Some(c) => Some(Fill::Closed(c)),
            None => None,
        }
    } else if id == id_open() {
        match color_nat_of(v) {
            Some((c, n)) => Some(Fill::Open(c, n)),
            None => None,
        }
    } else if id == id_none() {
        Some(Fill::Empty)
    } else {
        None
    }
}

/// A fill: a variant with one of the arms of `fill_of_field`.
pub open spec fn fill_of(v: IdlValueView) -> Option<Fill> {
    match v {
        IdlValueView::Variant(id, val) => fill_of_field(id, *val),
        _ => None,
    }
}

/// The direction that an arm stands for: only `right` is known.
pub open spec fn dir_of_field(id: u32) -> Option<Dir2D> {
    if id == id_right() {
        Some(Dir2D::Right)
    } else {
        None
    }
}

pub open spec fn dir_of(v: IdlValueView) -> Option<Dir2D> {
    match v {
        IdlValueView::Variant(id, _) => dir_of_field(id),
        _ => None,
    }
}

/// The attributes of a flow: a record of exactly a direction and the two
/// paddings, inner before outer.
pub open spec fn flow_atts_of(v: IdlValueView) -> Option<FlowAtts> {
    match v {
        IdlValueView::Record(fs) => if fs.len() != 3 {
            None
        } else {
            match (dir_of(fs[0].1), nat_of(fs[1].1), nat_of(fs[2].1)) {
                (Some(dir), Some(intra_pad), Some(inter_pad)) => Some(
                    FlowAtts { dir, intra_pad, inter_pad },
                ),
                _ => None,
            }
        },
        _ => None,
    }
}

pub open spec fn text_atts_ok(v: IdlValueView) -> bool {
    v matches IdlValueView::Record(fs) ==> (fs.len() == 5 ==> pair_ok(fs[4].1))
}

/// The attributes of text: a record of exactly five fields, which hold the
/// fill of the signs, the zoom, the flow of glyphs, the fill behind the
/// signs and the size of a glyph, in this order.
pub open spec fn text_atts_of(v: IdlValueView) -> Option<TextAtts> {
    match v {
        IdlValueView::Record(fs) => if fs.len() != 5 {
            None
        } else {
            match (
                nat_of(fs[1].1),
                fill_of(fs[0].1),
                fill_of(fs[3].1),
                dim_of(fs[4].1),
                flow_atts_of(fs[2].1),
            ) {
                (Some(zoom), Some(fg_fill), Some(bg_fill), Some(glyph_dim), Some(glyph_flow)) => Some(
                    TextAtts { zoom, fg_fill, bg_fill, glyph_dim, glyph_flow },
                ),
                _ => None,
            }
        },
        _ => None,
    }
}

pub open spec fn render_text_ok(v: IdlValueView) -> bool {
    v matches IdlValueView::Record(fs) ==> (fs.len() == 2 ==> text_atts_ok(fs[1].1) && (match (
        text_of(fs[0].1),
        text_atts_of(fs[1].1),
    ) {
        (Some(t), Some(ta)) => text_fits(t, ta),
        _ => true,
    }))
}

/// A text to draw: a record of exactly a text and its attributes, read as
/// the node that the text is drawn as.
pub open spec fn render_text_of(v: IdlValueView) -> Option<ElmView> {
    match v {
        IdlValueView::Record(fs) => if fs.len() != 2 {
            None
        } else {
            match (text_of(fs[0].1), text_atts_of(fs[1].1)) {
                (Some(t), Some(ta)) => Some(text_node(t, ta)),
                _ => None,
            }
        },
        _ => None,
    }
}

pub open spec fn render_rect_fill_ok(v: IdlValueView) -> bool {
    v matches IdlValueView::Record(fs) ==> (fs.len() == 2 ==> rect_ok(fs[0].1))
}

/// A rectangle to draw: a record of exactly a rectangle and a fill.
pub open spec fn render_rect_fill_of(v: IdlValueView) -> Option<ElmView> {
    match v {
        IdlValueView::Record(fs) => if fs.len() != 2 {
            None
        } else {
            match (rect_of(fs[0].1), fill_of(fs[1].1)) {
                (Some(r), Some(f)) => Some(ElmView::Rect(r, f)),
                _ => None,
            }
        },
        _ => None,
    }
}

/// The value can be read as an element without running into a record that
/// is too short or a text that cannot be drawn.
pub open spec fn render_elm_ok(v: IdlValueView) -> bool
    decreases v,
{
    match v {
        IdlValueView::Variant(id, val) => if id == id_node() {
            render_node_ok(*val)
        } else if id == id_text() {
            render_text_ok(*val)
        } else if id == id_rect() {
            render_rect_fill_ok(*val)
        } else {
            true
        },
        _ => true,
    }
}

pub open spec fn render_node_ok(v: IdlValueView) -> bool
    decreases v,
{
    match v {
        IdlValueView::Record(fs) => fs.len() == 3 ==> rect_ok(fs[2].1) && (match fs[0].1 {
            IdlValueView::Vec(vals) => render_elms_ok(vals, vals.len()),
            _ => true,
        }),
        _ => true,
    }
}

/// The first `n` values can be read as elements, as far as reading goes:
/// it stops at the first that is none.
pub open spec fn render_elms_ok(vals: Seq<IdlValueView>, n: nat) -> bool
    decreases vals, n,
{
    if n == 0 || n > vals.len() {
        true
    } else {
        render_elms_ok(vals, (n - 1) as nat) && (render_elms_of(vals, (n - 1) as nat) is Some
            ==> render_elm_ok(vals[n - 1]))
    }
}

/// An element: a variant whose arm is a node, a text or a rectangle.
pub open spec fn render_elm_of(v: IdlValueView) -> Option<ElmView>
    decreases v,
{
    match v {
        IdlValueView::Variant(id, val) => if id == id_node() {
            render_node_of(*val)
        } else if id == id_text() {
            render_text_of(*val)
        } else if id == id_rect() {
            render_rect_fill_of(*val)
        } else {
            None
        },
        _ => None,
    }
}

/// A node: a record of exactly its elements, its fill and its rectangle.
/// The node has no name.
pub open spec fn render_node_of(v: IdlValueView) -> Option<ElmView>
    decreases v,
{
    match v {
        IdlValueView::Record(fs) => if fs.len() != 3 {
            None
        } else {
            match fs[0].1 {
                IdlValueView::Vec(vals) => match (rect_of(fs[2].1), fill_of(fs[1].1)) {
                    (Some(rect), Some(fill)) => match render_elms_of(vals, vals.len()) {
                        Some(children) => Some(
                            ElmView::Node { name: NameView::Void, rect, fill, children },
                        ),
                        None => None,
                    },
                    _ => None,
                },
                _ => None,
            }
        },
        _ => None,
    }
}

/// The first `n` values as elements, or nothing where one of them is none.
pub open spec fn render_elms_of(vals: Seq<IdlValueView>, n: nat) -> Option<Seq<ElmView>>
    decreases vals, n,
{
    if n == 0 || n > vals.len() {
        Some(Seq::empty())
    } else {
        match render_elms_of(vals, (n - 1) as nat) {
            Some(es) => match render_elm_of(vals[n - 1]) {
                Some(e) => Some(es.push(e)),
                None => None,
            },
            None => None,
        }
    }
}

/// The first `n` values can be read as named elements, as far as reading
/// goes.
pub open spec fn named_elms_ok(vals: Seq<IdlValueView>, n: nat) -> bool
    decreases n,
{
    if n == 0 || n > vals.len() {
        true
    } else {
        named_elms_ok(vals, (n - 1) as nat) && (named_elms_of(vals, (n - 1) as nat) is Some ==> (
        vals[n - 1] matches IdlValueView::Record(fs) ==> (fs.len() == 2 ==> render_elm_ok(fs[1].1))))
    }
}

/// A named element: a record of exactly a text, the name, and an element.
pub open spec fn named_elm_of(v: IdlValueView) -> Option<(NameView, ElmView)> {
    match v {
        IdlValueView::Record(fs) => if fs.len() != 2 {
            None
        } else {
            match (text_of(fs[0].1), render_elm_of(fs[1].1)) {
                (Some(name), Some(elm)) => Some((NameView::Atom(AtomView::String(name)), elm)),
                _ => None,
            }
        },
        _ => None,
    }
}

/// The first `n` values as named elements, or nothing where one is none.
pub open spec fn named_elms_of(vals: Seq<IdlValueView>, n: nat) -> Option<Seq<(NameView, ElmView)>>
    decreases n,
{
    if n == 0 || n > vals.len() {
        Some(Seq::empty())
    } else {
        match named_elms_of(vals, (n - 1) as nat) {
            Some(es) => match named_elm_of(vals[n - 1]) {
                Some(e) => Some(es.push(e)),
                None => None,
            },
            None => None,
        }
    }
}

pub open spec fn render_out_ok(v: IdlValueView) -> bool {
    match v {
        IdlValueView::Variant(id, val) => if id == id_draw() {
            render_elm_ok(*val)
        } else if id == id_redraw() {
            *val matches IdlValueView::Vec(vals) ==> named_elms_ok(vals, vals.len())
        } else {
            true
        },
        _ => true,
    }
}

/// What is to be drawn: a variant that is `draw` with one element, or
/// `redraw` with a sequence of named elements.
pub open spec fn render_out_of(v: IdlValueView) -> Option<OutView> {
    match v {
        IdlValueView::Variant(id, val) => if id == id_draw() {
            match render_elm_of(*val) {
                Some(e) => Some(OutView::Draw(e)),
                None => None,
            }
        } else if id == id_redraw() {
            match *val {
                IdlValueView::Vec(vals) => match named_elms_of(vals, vals.len()) {
                    Some(es) => Some(OutView::Redraw(es)),
                    None => None,
                },
                _ => None,
            }
        } else {
            None
        },
        _ => None,
    }
}

pub open spec fn result_render_out_ok(v: IdlValueView) -> bool {
    v matches IdlValueView::Variant(id, val) ==> (id == id_ok() || id == id_err() ==> render_out_ok(
        *val,
    ))
}

/// What a result asks to be drawn: the same whether it is `ok` or `err`.
pub open spec fn result_render_out_of(v: IdlValueView) -> Option<OutView> {
    match v {
        IdlValueView::Variant(id, val) => if id == id_ok() || id == id_err() {
            render_out_of(*val)
        } else {
            None
        },
        _ => None,
    }
}

/// What the first `n` values ask to be drawn: the last of them that asks
/// for anything counts.
pub open spec fn found_render_out(vs: Seq<IdlValueView>, n: nat) -> Option<OutView>
    decreases n,
{
    if n == 0 || n > vs.len() {
        None
    } else {
        match result_render_out_of(vs[n - 1]) {
            Some(o) => Some(o),
            None => found_render_out(vs, (n - 1) as nat),
        }
    }
}

// ---------------------------------------------------------------------------
// Reading

pub fn get_nat(v: &IdlValue) -> (r: Option<usize>)
    ensures
        r == nat_of(v@),
{
    match v {
        IdlValue::Nat(n) => Some(#[verifier::truncate]
        (*n as usize)),
        _ => None,
    }
}

pub fn get_text(v: &IdlValue) -> (r: Option<String>)
    ensures
        match text_of(v@) {
            Some(t) => r matches Some(s) && s@ == t,
            None => r is None,
        },
{
    match v {
        IdlValue::Text(t) => Some(t.clone()),
        _ => None,
    }
}

pub fn get_pos(pos: &IdlValue) -> (r: Option<Pos>)
    requires
        pair_ok(pos@),
    ensures
        r == pos_of(pos@),
{
    match pos {
        IdlValue::Record(fields) => {
            assert(pos@->Record_0 == idl_fields_view(fields@));
            assert(idl_fields_view(fields@).len() == fields@.len());
            match (get_nat(&fields[0].val), get_nat(&fields[1].val)) {
                (Some(x), Some(y)) => {
                    let x = #[verifier::truncate]
                    (x as isize);
                    let y = #[verifier::truncate]
                    (y as isize);
                    Some(Pos { x, y })
                },
                _ => None,
            }
        },
        _ => None,
    }
}

pub fn get_dim(dim: &IdlValue) -> (r: Option<Dim>)
    requires
        pair_ok(dim@),
    ensures
        r == dim_of(dim@),
{
    match dim {
        IdlValue::Record(fields) => {
            assert(dim@->Record_0 == idl_fields_view(fields@));
            assert(idl_fields_view(fields@).len() == fields@.len());
            match (get_nat(&fields[1].val), get_nat(&fields[0].val)) {
                (Some(width), Some(height)) => Some(Dim { width, height }),
                _ => None,
            }
        },
        _ => None,
    }
}

pub fn get_rect(rect: &IdlValue) -> (r: Option<Rect>)
    requires
        rect_ok(rect@),
    ensures
        r == rect_of(rect@),
{
    match rect {
        IdlValue::Record(fields) => {
            assert(rect@->Record_0 == idl_fields_view(fields@));
            assert(idl_fields_view(fields@).len() == fields@.len());
            if fields.len() != 2 {
                return None;
            }
            match (get_pos(&fields[1].val), get_dim(&fields[0].val)) {
                (Some(pos), Some(dim)) => Some(Rect { pos, dim }),
                _ => None,
            }
        },
        _ => None,
    }
}

pub fn get_color(color: &IdlValue) -> (r: Option<Color>)
    ensures
        r == color_of(color@),
{
    match color {
        IdlValue::Record(fields) => {
            assert(color@->Record_0 == idl_fields_view(fields@));
            assert(idl_fields_view(fields@).len() == fields@.len());
            if fields.len() != 3 {
                return None;
            }
            match (get_nat(&fields[0].val), get_nat(&fields[1].val), get_nat(&fields[2].val)) {
                (Some(r), Some(g), Some(b)) => Some(Color::RGB(r, g, b)),
                _ => None,
            }
        },
        _ => None,
    }
}

pub fn get_color_nat(color_nat: &IdlValue) -> (r: Option<(Color, usize)>)
    ensures
        r == color_nat_of(color_nat@),
{
    match color_nat {
        IdlValue::Record(fields) => {
            assert(color_nat@->Record_0 == idl_fields_view(fields@));
            assert(idl_fields_view(fields@).len() == fields@.len());
            if fields.len() != 2 {
                return None;
            }
            match (get_color(&fields[0].val), get_nat(&fields[1].val)) {
                (Some(c), Some(n)) => Some((c, n)),
                _ => None,
            }
        },
        _ => None,
    }
}

pub fn get_fill_(f: &IdlField) -> (r: Option<Fill>)
    ensures
        r == fill_of_field(f.id, f.val@),
{
    if f.id == 240232876 {
        match get_color(&f.val) {
            Some(c) => Some(Fill::Closed(c)),
            None => None,
        }
    } else if f.id == 1236534218 {
        match get_color_nat(&f.val) {
            Some((c, n)) => Some(Fill::Open(c, n)),
            None => None,
        }
    } else if f.id == 1225396920 {
        Some(Fill::Empty)
    } else {
        None
    }
}

pub fn get_fill(v: &IdlValue) -> (r: Option<Fill>)
    ensures
        r == fill_of(v@),
{
    match v {
        IdlValue::Variant(f) => get_fill_(f),
        _ => None,
    }
}

pub fn get_dir2d_(f: &IdlField) -> (r: Option<Dir2D>)
    ensures
        r == dir_of_field(f.id),
{
    if f.id == 3915647964 {
        Some(Dir2D::Right)
    } else {
        None
    }
}

pub fn get_dir2d(v: &IdlValue) -> (r: Option<Dir2D>)
    ensures
        r == dir_of(v@),
{
    match v {
        IdlValue::Variant(f) => get_dir2d_(f),
        _ => None,
    }
}

pub fn get_flow_atts(v: &IdlValue) -> (r: Option<FlowAtts>)
    ensures
        r == flow_atts_of(v@),
{
    match v {
        IdlValue::Record(fields) => {
            assert(v@->Record_0 == idl_fields_view(fields@));
            assert(idl_fields_view(fields@).len() == fields@.len());
            if fields.len() != 3 {
                return None;
            }
            match (get_dir2d(&fields[0].val), get_nat(&fields[1].val), get_nat(&fields[2].val)) {
                (Some(dir), Some(intra_pad), Some(inter_pad)) => Some(
                    FlowAtts { dir, intra_pad, inter_pad },
                ),
                _ => None,
            }
        },
        _ => None,
    }
}

pub fn get_text_atts(v: &IdlValue) -> (r: Option<TextAtts>)
    requires
        text_atts_ok(v@),
    ensures
        r == text_atts_of(v@),
{
    match v {
        IdlValue::Record(fields) => {
            assert(v@->Record_0 == idl_fields_view(fields@));
            assert(idl_fields_view(fields@).len() == fields@.len());
            if fields.len() != 5 {
                return None;
            }
            match (
                get_nat(&fields[1].val),
                get_fill(&fields[0].val),
                get_fill(&fields[3].val),
                get_dim(&fields[4].val),
                get_flow_atts(&fields[2].val),
            ) {
                (Some(zoom), Some(fg_fill), Some(bg_fill), Some(glyph_dim), Some(glyph_flow)) => Some(
                    TextAtts { zoom, fg_fill, bg_fill, glyph_dim, glyph_flow },
                ),
                _ => None,
            }
        },
        _ => None,
    }
}

pub fn get_render_text(elm: &IdlValue) -> (r: Option<Elm>)
    requires
        render_text_ok(elm@),
    ensures
        match render_text_of(elm@) {
            Some(e) => r matches Some(x) && x@ == e,
            None => r is None,
        },
{
    match elm {
        IdlValue::Record(fields) => {
            assert(elm@->Record_0 == idl_fields_view(fields@));
            assert(idl_fields_view(fields@).len() == fields@.len());
            if fields.len() != 2 {
                return None;
            }
            match (get_text(&fields[0].val), get_text_atts(&fields[1].val)) {
                (Some(t), Some(ta)) => {
                    let mut r = Render::new();
                    r.text(&t, &ta);
                    let mut elms = r.into_elms();
                    assert(elms_model(elms@) =~= seq![text_node(t@, ta)]);
                    assert(elms@[0]@ == elms_model(elms@)[0]);
                    elms.pop()
                },
                _ => None,
            }
        },
        _ => None,
    }
}

pub fn get_render_rect_fill(elm: &IdlValue) -> (r: Option<Elm>)
    requires
        render_rect_fill_ok(elm@),
    ensures
        match render_rect_fill_of(elm@) {
            Some(e) => r matches Some(x) && x@ == e,
            None => r is None,
        },
{
    match elm {
        IdlValue::Record(fields) => {
            assert(elm@->Record_0 == idl_fields_view(fields@));
            assert(idl_fields_view(fields@).len() == fields@.len());
            if fields.len() != 2 {
                return None;
            }
            match (get_rect(&fields[0].val), get_fill(&fields[1].val)) {
                (Some(r), Some(f)) => Some(Elm::Rect(r, f)),
                _ => None,
            }
        },
        _ => None,
    }
}

pub fn get_render_node(elm: &IdlValue) -> (r: Option<Elm>)
    requires
        render_node_ok(elm@),
    ensures
        match render_node_of(elm@) {
            Some(e) => r matches Some(x) && x@ == e,
            None => r is None,
        },
    decreases elm,
{
    match elm {
        IdlValue::Record(fields) => {
            assert(elm@->Record_0 == idl_fields_view(fields@));
            assert(idl_fields_view(fields@).len() == fields@.len());
            if fields.len() != 3 {
                return None;
            }
            let rect = get_rect(&fields[2].val);
            let fill = get_fill(&fields[1].val);
            match &fields[0].val {
                IdlValue::Vec(vals) => {
                    assert(fields@[0].val@->Vec_0 == idl_values_view(vals@));
                    assert(idl_values_view(vals@).len() == vals@.len());
                    match (rect, fill, get_render_elms(vals)) {
                        (Some(rect), Some(fill), Some(node_elms)) => Some(
                            Elm::Node(
                                Box::new(Node { name: Name::Void, children: node_elms, rect, fill }),
                            ),
                        ),
                        _ => None,
                    }
                },
                _ => None,
            }
        },
        _ => None,
    }
}

pub fn get_render_elm_(elm: &IdlField) -> (r: Option<Elm>)
    requires
        render_elm_ok(IdlValueView::Variant(elm.id, Box::new(elm.val@))),
    ensures
        match render_elm_of(IdlValueView::Variant(elm.id, Box::new(elm.val@))) {
            Some(e) => r matches Some(x) && x@ == e,
            None => r is None,
        },
    decreases elm,
{
    if elm.id == 1225394690 {
        get_render_node(&elm.val)
    } else if elm.id == 1291439277 {
        get_render_text(&elm.val)
    } else if elm.id == 1269255460 {
        get_render_rect_fill(&elm.val)
    } else {
        None
    }
}

pub fn get_render_elm(v: &IdlValue) -> (r: Option<Elm>)
    requires
        render_elm_ok(v@),
    ensures
        match render_elm_of(v@) {
            Some(e) => r matches Some(x) && x@ == e,
            None => r is None,
        },
    decreases v,
{
    match v {
        IdlValue::Variant(f) => get_render_elm_(f),
        _ => None,
    }
}

pub fn get_render_elms(vals: &Vec<IdlValue>) -> (r: Option<Elms>)
    requires
        render_elms_ok(idl_values_view(vals@), vals@.len() as nat),
    ensures
        match render_elms_of(idl_values_view(vals@), vals@.len() as nat) {
            Some(es) => r matches Some(x) && elms_model(x@) == es,
            None => r is None,
        },
    decreases vals,
{
    let ghost vs = idl_values_view(vals@);
    let mut out: Elms = Vec::new();
    assert(elms_model(out@) =~= Seq::<ElmView>::empty());
    let mut i: usize = 0;
    while i < vals.len()
        invariant
            vs == idl_values_view(vals@),
            vs.len() == vals@.len(),
            render_elms_ok(vs, vals@.len() as nat),
            i <= vals.len(),
            render_elms_of(vs, i as nat) == Some(elms_model(out@)),
        decreases vals.len() - i,
    {
        proof {
            lemma_render_elms_ok_before(vs, (i + 1) as nat, vals@.len() as nat);
        }
        let ghost before = elms_model(out@);
        match get_render_elm(&vals[i]) {
            Some(elm) => {
                out.push(elm);
                assert(elms_model(out@) =~= before.push(elm@));
            },
            None => {
                proof {
                    lemma_render_elms_none_after(vs, (i + 1) as nat, vals@.len() as nat);
                }
                return None;
            },
        }
        i += 1;
    }
    Some(out)
}

proof fn lemma_render_elms_ok_before(vals: Seq<IdlValueView>, i: nat, n: nat)
    requires
        i <= n <= vals.len(),
        render_elms_ok(vals, n),
    ensures
        render_elms_ok(vals, i),
    decreases n,
{
    if i < n {
        lemma_render_elms_ok_before(vals, i, (n - 1) as nat);
    }
}

proof fn lemma_render_elms_none_after(vals: Seq<IdlValueView>, i: nat, n: nat)
    requires
        i <= n <= vals.len(),
        render_elms_of(vals, i) is None,
    ensures
        render_elms_of(vals, n) is None,
    decreases n,
{
    if i < n {
        lemma_render_elms_none_after(vals, i, (n - 1) as nat);
    }
}

proof fn lemma_named_elms_ok_before(vals: Seq<IdlValueView>, i: nat, n: nat)
    requires
        i <= n <= vals.len(),
        named_elms_ok(vals, n),
    ensures
        named_elms_ok(vals, i),
    decreases n,
{
    if i < n {
        lemma_named_elms_ok_before(vals, i, (n - 1) as nat);
    }
}

proof fn lemma_named_elms_none_after(vals: Seq<IdlValueView>, i: nat, n: nat)
    requires
        i <= n <= vals.len(),
        named_elms_of(vals, i) is None,
    ensures
        named_elms_of(vals, n) is None,
    decreases n,
{
    if i < n {
        lemma_named_elms_none_after(vals, i, (n - 1) as nat);
    }
}

pub fn get_render_named_elms_(vals: &Vec<IdlValue>) -> (r: Option<NamedElms>)
    requires
        named_elms_ok(idl_values_view(vals@), vals@.len() as nat),
    ensures
        match named_elms_of(idl_values_view(vals@), vals@.len() as nat) {
            Some(es) => r matches Some(x) && named_elms_model(x@) == es,
            None => r is None,
        },
{
    let ghost vs = idl_values_view(vals@);
    let mut out: NamedElms = Vec::new();
    assert(named_elms_model(out@) =~= Seq::<(NameView, ElmView)>::empty());
    let mut i: usize = 0;
    while i < vals.len()
        invariant
            vs == idl_values_view(vals@),
            vs.len() == vals@.len(),
            named_elms_ok(vs, vals@.len() as nat),
            i <= vals.len(),
            named_elms_of(vs, i as nat) == Some(named_elms_model(out@)),
        decreases vals.len() - i,
    {
        proof {
            lemma_named_elms_ok_before(vs, (i + 1) as nat, vals@.len() as nat);
            if named_elms_of(vs, (i + 1) as nat) is None {
                lemma_named_elms_none_after(vs, (i + 1) as nat, vals@.len() as nat);
            }
        }
        let ghost before = named_elms_model(out@);
        match &vals[i] {
            IdlValue::Record(fields) => {
                assert(vals@[i as int]@->Record_0 == idl_fields_view(fields@));
                assert(idl_fields_view(fields@).len() == fields@.len());
                if fields.len() != 2 {
                    return None;
                }
                match (get_text(&fields[0].val), get_render_elm(&fields[1].val)) {
                    (Some(name), Some(elm)) => {
                        out.push((Name::Atom(Atom::String(name)), elm));
                        assert(named_elms_model(out@) =~= before.push(
                            (NameView::Atom(AtomView::String(name@)), elm@),
                        ));
                    },
                    _ => {
                        return None;
                    },
                }
            },
            _ => {
                return None;
            },
        }
        i += 1;
    }
    Some(out)
}

pub fn get_render_named_elms(vals: &IdlValue) -> (r: Option<NamedElms>)
    requires
        vals@ matches IdlValueView::Vec(vs) ==> named_elms_ok(vs, vs.len()),
    ensures
        match vals@ {
            IdlValueView::Vec(vs) => match named_elms_of(vs, vs.len()) {
                Some(es) => r matches Some(x) && named_elms_model(x@) == es,
                None => r is None,
            },
            _ => r is None,
        },
{
    match vals {
        IdlValue::Vec(vs) => {
            assert(vals@->Vec_0 == idl_values_view(vs@));
            assert(idl_values_view(vs@).len() == vs@.len());
            get_render_named_elms_(vs)
        },
        _ => None,
    }
}

pub fn get_render_out(v: &IdlValue) -> (r: Option<Out>)
    requires
        render_out_ok(v@),
    ensures
        match render_out_of(v@) {
            Some(o) => r matches Some(x) && x@ == o,
            None => r is None,
        },
{
    match v {
        IdlValue::Variant(field) => {
            if field.id == 1114647556 {
                match get_render_elm(&field.val) {
                    Some(elm) => Some(Out::Draw(elm)),
                    None => None,
                }
            } else if field.id == 4271367479 {
                match get_render_named_elms(&field.val) {
                    Some(named_elms) => Some(Out::Redraw(named_elms)),
                    None => None,
                }
            } else {
                None
            }
        },
        _ => None,
    }
}

pub fn get_result_render_out(v: &IdlValue) -> (r: Option<Out>)
    requires
        result_render_out_ok(v@),
    ensures
        match result_render_out_of(v@) {
            Some(o) => r matches Some(x) && x@ == o,
            None => r is None,
        },
{
    match v {
        IdlValue::Variant(f) => {
            if f.id == 24860 || f.id == 5048165 {
                get_render_out(&f.val)
            } else {
                None
            }
        },
        _ => None,
    }
}

/// What the values ask to be drawn: the last of them that asks for anything
/// counts.
pub fn find_render_out(vs: &Vec<IdlValue>) -> (r: Option<Out>)
    requires
        forall|i: int|
            0 <= i < idl_values_view(vs@).len() ==> result_render_out_ok(
                #[trigger] idl_values_view(vs@)[i],
            ),
    ensures
        match found_render_out(idl_values_view(vs@), vs@.len() as nat) {
            Some(o) => r matches Some(x) && x@ == o,
            None => r is None,
        },
{
    let ghost views = idl_values_view(vs@);
    let mut last: Option<Out> = None;
    let mut i: usize = 0;
    while i < vs.len()
        invariant
            views == idl_values_view(vs@),
            views.len() == vs@.len(),
            forall|k: int| 0 <= k < views.len() ==> result_render_out_ok(#[trigger] views[k]),
            i <= vs.len(),
            match found_render_out(views, i as nat) {
                Some(o) => last matches Some(x) && x@ == o,
                None => last is None,
            },
        decreases vs.len() - i,
    {
        assert(result_render_out_ok(views[i as int]));
        match get_result_render_out(&vs[i]) {
            None => {},
            Some(o) => {
                last = Some(o);
            },
        }
        i += 1;
    }
    last
}

// ---------------------------------------------------------------------------
// Asking first

/// Whether the value, if it is a record, has two fields at least.
pub fn pair_is_ok(v: &IdlValue) -> (r: bool)
    ensures
        r == pair_ok(v@),
{
    match v {
        IdlValue::Record(fields) => {
            assert(v@->Record_0 == idl_fields_view(fields@));
            assert(idl_fields_view(fields@).len() == fields@.len());
            fields.len() >= 2
        },
        _ => true,
    }
}

/// Whether the value can be read as a rectangle without running into a record that is too short.
pub fn rect_is_ok(v: &IdlValue) -> (r: bool)
    ensures
        r == rect_ok(v@),
{
    match v {
        IdlValue::Record(fields) => {
            assert(v@->Record_0 == idl_fields_view(fields@));
            assert(idl_fields_view(fields@).len() == fields@.len());
            fields.len() != 2 || (pair_is_ok(&fields[1].val) && pair_is_ok(&fields[0].val))
        },
        _ => true,
    }
}

/// Whether the value can be read as attributes of text without running into a record that is too short.
pub fn text_atts_is_ok(v: &IdlValue) -> (r: bool)
    ensures
        r == text_atts_ok(v@),
{
    match v {
        IdlValue::Record(fields) => {
            assert(v@->Record_0 == idl_fields_view(fields@));
            assert(idl_fields_view(fields@).len() == fields@.len());
            fields.len() != 5 || pair_is_ok(&fields[4].val)
        },
        _ => true,
    }
}

/// Whether the value can be read as a text to draw: no record in it is too short, and the text can be drawn.
pub fn render_text_is_ok(v: &IdlValue) -> (r: bool)
    ensures
        r == render_text_ok(v@),
{
    match v {
        IdlValue::Record(fields) => {
            assert(v@->Record_0 == idl_fields_view(fields@));
            assert(idl_fields_view(fields@).len() == fields@.len());
            if fields.len() != 2 {
                return true;
            }
            if !text_atts_is_ok(&fields[1].val) {
                return false;
            }
            match (get_text(&fields[0].val), get_text_atts(&fields[1].val)) {
                (Some(t), Some(ta)) => text_does_fit(&t, &ta),
                _ => true,
            }
        },
        _ => true,
    }
}

/// Whether the value can be read as a rectangle to draw without running into a record that is too short.
pub fn render_rect_fill_is_ok(v: &IdlValue) -> (r: bool)
    ensures
        r == render_rect_fill_ok(v@),
{
    match v {
        IdlValue::Record(fields) => {
            assert(v@->Record_0 == idl_fields_view(fields@));
            assert(idl_fields_view(fields@).len() == fields@.len());
            fields.len() != 2 || rect_is_ok(&fields[0].val)
        },
        _ => true,
    }
}

proof fn lemma_render_elms_ok_after(vals: Seq<IdlValueView>, i: nat, n: nat)
    requires
        i <= n <= vals.len(),
        render_elms_ok(vals, i),
        render_elms_of(vals, i) is None,
    ensures
        render_elms_ok(vals, n),
    decreases n,
{
    if i < n {
        lemma_render_elms_ok_after(vals, i, (n - 1) as nat);
        lemma_render_elms_none_after(vals, i, (n - 1) as nat);
    }
}

proof fn lemma_named_elms_ok_after(vals: Seq<IdlValueView>, i: nat, n: nat)
    requires
        i <= n <= vals.len(),
        named_elms_ok(vals, i),
        named_elms_of(vals, i) is None,
    ensures
        named_elms_ok(vals, n),
    decreases n,
{
    if i < n {
        lemma_named_elms_ok_after(vals, i, (n - 1) as nat);
        lemma_named_elms_none_after(vals, i, (n - 1) as nat);
    }
}

/// Whether the values can be read as elements.
pub fn render_elms_are_ok(vals: &Vec<IdlValue>) -> (r: bool)
    ensures
        r == render_elms_ok(idl_values_view(vals@), vals@.len() as nat),
    decreases vals,
{
    let ghost vs = idl_values_view(vals@);
    let mut i: usize = 0;
    while i < vals.len()
        invariant
            vs == idl_values_view(vals@),
            vs.len() == vals@.len(),
            i <= vals.len(),
            render_elms_ok(vs, i as nat),
            render_elms_of(vs, i as nat) is Some,
        decreases vals.len() - i,
    {
        if !render_elm_is_ok(&vals[i]) {
            proof {
                if render_elms_ok(vs, vals@.len() as nat) {
                    lemma_render_elms_ok_before(vs, (i + 1) as nat, vals@.len() as nat);
                }
            }
            return false;
        }
        if get_render_elm(&vals[i]).is_none() {
            proof {
                lemma_render_elms_ok_after(vs, (i + 1) as nat, vals@.len() as nat);
            }
            return true;
        }
        i += 1;
    }
    true
}

/// Whether the value can be read as a node.
pub fn render_node_is_ok(v: &IdlValue) -> (r: bool)
    ensures
        r == render_node_ok(v@),
    decreases v,
{
    match v {
        IdlValue::Record(fields) => {
            assert(v@->Record_0 == idl_fields_view(fields@));
            assert(idl_fields_view(fields@).len() == fields@.len());
            if fields.len() != 3 {
                return true;
            }
            if !rect_is_ok(&fields[2].val) {
                return false;
            }
            match &fields[0].val {
                IdlValue::Vec(vals) => {
                    assert(fields@[0].val@->Vec_0 == idl_values_view(vals@));
                    assert(idl_values_view(vals@).len() == vals@.len());
                    render_elms_are_ok(vals)
                },
                _ => true,
            }
        },
        _ => true,
    }
}

/// Whether the value can be read as an element.
pub fn render_elm_is_ok(v: &IdlValue) -> (r: bool)
    ensures
        r == render_elm_ok(v@),
    decreases v,
{
    match v {
        IdlValue::Variant(f) => {
            if f.id == 1225394690 {
                render_node_is_ok(&f.val)
            } else if f.id == 1291439277 {
                render_text_is_ok(&f.val)
            } else if f.id == 1269255460 {
                render_rect_fill_is_ok(&f.val)
            } else {
                true
            }
        },
        _ => true,
    }
}

/// Whether the values can be read as named elements.
pub fn named_elms_are_ok(vals: &Vec<IdlValue>) -> (r: bool)
    ensures
        r == named_elms_ok(idl_values_view(vals@), vals@.len() as nat),
{
    let ghost vs = idl_values_view(vals@);
    let mut i: usize = 0;
    while i < vals.len()
        invariant
            vs == idl_values_view(vals@),
            vs.len() == vals@.len(),
            i <= vals.len(),
            named_elms_ok(vs, i as nat),
            named_elms_of(vs, i as nat) is Some,
        decreases vals.len() - i,
    {
        let (ok, more) = match &vals[i] {
            IdlValue::Record(fields) => {
                assert(vals@[i as int]@->Record_0 == idl_fields_view(fields@));
                assert(idl_fields_view(fields@).len() == fields@.len());
                if fields.len() != 2 {
                    (true, false)
                } else if !render_elm_is_ok(&fields[1].val) {
                    (false, false)
                } else {
                    (
                        true,
                        get_text(&fields[0].val).is_some() && get_render_elm(
                            &fields[1].val,
                        ).is_some(),
                    )
                }
            },
            _ => (true, false),
        };
        if !ok {
            proof {
                if named_elms_ok(vs, vals@.len() as nat) {
                    lemma_named_elms_ok_before(vs, (i + 1) as nat, vals@.len() as nat);
                }
            }
            return false;
        }
        if !more {
            proof {
                lemma_named_elms_ok_after(vs, (i + 1) as nat, vals@.len() as nat);
            }
            return true;
        }
        i += 1;
    }
    true
}

/// Whether the value can be read as what is to be drawn.
pub fn render_out_is_ok(v: &IdlValue) -> (r: bool)
    ensures
        r == render_out_ok(v@),
{
    match v {
        IdlValue::Variant(field) => {
            if field.id == 1114647556 {
                render_elm_is_ok(&field.val)
            } else if field.id == 4271367479 {
                match &field.val {
                    IdlValue::Vec(vals) => {
                        assert(field.val@->Vec_0 == idl_values_view(vals@));
                        assert(idl_values_view(vals@).len() == vals@.len());
                        named_elms_are_ok(vals)
                    },
                    _ => true,
                }
            } else {
                true
            }
        },
        _ => true,
    }
}

/// Whether a result can be read without running into a record that is too
/// short or a text that cannot be drawn.
pub fn result_is_readable(v: &IdlValue) -> (r: bool)
    ensures
        r == result_render_out_ok(v@),
{
    match v {
        IdlValue::Variant(f) => {
            if f.id == 24860 || f.id == 5048165 {
                render_out_is_ok(&f.val)
            } else {
                true
            }
        },
        _ => true,
    }
}

/// Every value can be read.
pub open spec fn readable(vs: Seq<IdlValueView>) -> bool {
    forall|i: int| 0 <= i < vs.len() ==> result_render_out_ok(#[trigger] vs[i])
}

/// What the values ask to be drawn, where every one of them can be read;
/// else nothing is read at all.
pub fn try_find_render_out(vs: &Vec<IdlValue>) -> (r: Option<Option<Out>>)
    ensures
        r is Some <==> readable(idl_values_view(vs@)),
        r matches Some(found) ==> (match found_render_out(idl_values_view(vs@), vs@.len() as nat) {
            Some(o) => found matches Some(x) && x@ == o,
            None => found is None,
        }),
{
    let ghost views = idl_values_view(vs@);
    let mut i: usize = 0;
    while i < vs.len()
        invariant
            views == idl_values_view(vs@),
            views.len() == vs@.len(),
            i <= vs.len(),
            forall|k: int| 0 <= k < i ==> result_render_out_ok(#[trigger] views[k]),
        decreases vs.len() - i,
    {
        if !result_is_readable(&vs[i]) {
            assert(!result_render_out_ok(views[i as int]));
            return None;
        }
        i += 1;
    }
    Some(find_render_out(vs))
}

} // verus!
