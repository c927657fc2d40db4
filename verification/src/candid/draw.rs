//! What the session with a service shows: the cells on display, and the
//! last calls with what they returned.

use crate::candid::value::{named_elms_model, OutView};
use crate::candid::{Call, CallView, Repl, ReplView, Span};
use crate::menu::draw::{atts_of, horz, outline, shade, vert};
use crate::render::pen::{
    blank, text_view, with_elm, with_frame, with_name, with_text, Drawn, Pen,
};
use crate::render::{FlowAtts, FrameType, Out, Render, TextAtts};
use crate::types::lang::{Dir2D, Name, NameView};
use crate::types::render::{Color, Dim, Elm, ElmView, Fill};
use std::time::Duration;
use vstd::prelude::*;
use vstd::string::StringExecFns;
use vstd::string::StringSliceAdditionalSpecFns;
use vstd::utf8::{decode_utf8, encode_utf8, is_char_boundary};

verus! {

// ---------------------------------------------------------------------------
// Looks

pub open spec fn dim_atts() -> TextAtts {
    atts_of(2, shade(150, 100, 150), Fill::Empty)
}

pub open spec fn dim2_atts() -> TextAtts {
    atts_of(2, shade(200, 180, 200), Fill::Empty)
}

pub open spec fn data_atts() -> TextAtts {
    atts_of(2, shade(230, 230, 230), Fill::Empty)
}

pub open spec fn err_atts() -> TextAtts {
    atts_of(2, shade(255, 100, 100), Fill::Empty)
}

pub open spec fn msg_atts() -> TextAtts {
    atts_of(2, shade(200, 200, 255), Fill::Empty)
}

pub open spec fn box_fill() -> Fill {
    outline(50, 100, 50)
}

pub open spec fn cell_fill() -> Fill {
    outline(255, 255, 255)
}

fn flow(dir: Dir2D) -> (r: FrameType)
    ensures
        r == crate::menu::draw::flow_of(dir, 2),
{
    FrameType::Flow(FlowAtts { dir, intra_pad: 2, inter_pad: 2 })
}

fn atts(r: usize, g: usize, b: usize) -> (a: TextAtts)
    ensures
        a == atts_of(2, shade(r, g, b), Fill::Empty),
{
    TextAtts {
        zoom: 2,
        fg_fill: Fill::Closed(Color::RGB(r, g, b)),
        bg_fill: Fill::Empty,
        glyph_dim: Dim { width: 5, height: 5 },
        glyph_flow: FlowAtts { dir: Dir2D::Right, intra_pad: 1, inter_pad: 1 },
    }
}

fn open(r: usize, g: usize, b: usize) -> (f: Fill)
    ensures
        f == outline(r, g, b),
{
    Fill::Open(Color::RGB(r, g, b), 1)
}

// ---------------------------------------------------------------------------
// Spans of time

/// What `std`'s `Debug` writes for the span of `secs` seconds and `nanos`
/// billionths.
pub uninterp spec fn duration_text(secs: u64, nanos: u32) -> Seq<char>;

/// Calls `Duration::new` and `format!` with `{:?}` on what it gives: the
/// span as `std`'s `Debug` writes it, a function of the two numbers alone.
/// With less than a second of billionths `Duration::new` does not panic.
#[verifier::external_body]
fn duration_string(secs: u64, nanos: u32) -> (s: String)
    requires
        nanos < 1_000_000_000,
    ensures
        s@ == duration_text(secs, nanos),
{
    format!("{:?}", Duration::new(secs, nanos))
}

/// The node of a span: a space and the span as text, where the span holds
/// less than a second of billionths.
pub open spec fn span_view(d: Span) -> Option<ElmView> {
    if d.1 < 1_000_000_000 {
        text_view(" "@ + duration_text(d.0, d.1), dim_atts())
    } else {
        None
    }
}

fn draw_span(pen: &mut Pen, d: Span)
    ensures
        final(pen)@ == with_elm(old(pen)@, span_view(d)),
{
    if d.1 < 1_000_000_000 {
        let mut s = " ".to_owned();
        let t = duration_string(d.0, d.1);
        s.append(t.as_str());
        pen.text(&s, &atts(150, 100, 150));
    } else {
        pen.fail();
    }
}

// ---------------------------------------------------------------------------
// Cells

/// After `acc`, a cell: in a box, the name with an equals sign, and under it
/// the element.
pub open spec fn cell_drawn(acc: Drawn, cell: (NameView, ElmView)) -> Drawn {
    with_frame(
        acc,
        vert(),
        cell_fill(),
        with_elm(
            with_frame(
                blank(),
                horz(),
                Fill::Empty,
                with_text(with_name(blank(), cell.0, data_atts()), "= "@, data_atts()),
            ),
            Some(cell.1),
        ),
    )
}

/// After `acc`, the first `n` cells.
pub open spec fn cells_drawn(acc: Drawn, cells: Seq<(NameView, ElmView)>, n: nat) -> Drawn
    decreases n,
{
    if n == 0 || n > cells.len() {
        acc
    } else {
        cell_drawn(cells_drawn(acc, cells, (n - 1) as nat), cells[n - 1])
    }
}

fn draw_cells(pen: &mut Pen, cells: &Vec<(Name, Elm)>)
    ensures
        final(pen)@ == cells_drawn(old(pen)@, named_elms_model(cells@), cells@.len() as nat),
{
    let ghost ms = named_elms_model(cells@);
    let mut i: usize = 0;
    while i < cells.len()
        invariant
            ms == named_elms_model(cells@),
            ms.len() == cells@.len(),
            i <= cells.len(),
            pen@ == cells_drawn(old(pen)@, ms, i as nat),
        decreases cells.len() - i,
    {
        let mut label = Pen::new();
        label.name(&cells[i].0, &atts(230, 230, 230));
        label.str("= ", &atts(230, 230, 230));
        let mut inner = Pen::new();
        inner.frame(flow(Dir2D::Right), Fill::Empty, label);
        inner.elm(cells[i].1.clone());
        pen.frame(flow(Dir2D::Down), open(255, 255, 255), inner);
        i += 1;
    }
}

// ---------------------------------------------------------------------------
// Calls

/// The longest text that is drawn whole, in bytes.
pub open spec fn most() -> int {
    80
}

/// The text cut after its first eighty bytes.
pub open spec fn cut(s: Seq<char>) -> Seq<char> {
    decode_utf8(encode_utf8(s).subrange(0, most()))
}

/// After `acc`, what a call returned as text: the whole text where it has
/// at most eighty bytes; else its first eighty bytes and three dots, and
/// nothing at all where the eightieth byte ends in the middle of a sign.
pub open spec fn rets_drawn(acc: Drawn, rets: Seq<char>) -> Drawn {
    if encode_utf8(rets).len() as usize > most() {
        if is_char_boundary(encode_utf8(rets), most()) {
            with_text(with_text(acc, cut(rets), data_atts()), "..."@, data_atts())
        } else {
            None
        }
    } else {
        with_text(acc, rets, data_atts())
    }
}

/// After `acc`, what a call asked to be drawn, or what it returned as text
/// where it asked for nothing.
pub open spec fn out_drawn(acc: Drawn, out: Option<OutView>, rets: Seq<char>) -> Drawn {
    match out {
        None => rets_drawn(acc, rets),
        Some(OutView::Draw(e)) => with_elm(acc, Some(e)),
        Some(OutView::Redraw(cells)) => cells_drawn(acc, cells, cells.len()),
    }
}

/// The line of a call: its method and its arguments.
pub open spec fn head_drawn(c: CallView) -> Drawn {
    with_frame(
        blank(),
        horz(),
        Fill::Empty,
        with_text(with_text(blank(), c.method, msg_atts()), c.args_idl, data_atts()),
    )
}

/// After `acc`, a call: its line, and under it the time that it took with an
/// arrow, followed by what it returned, or over the message of its failure.
pub open spec fn call_drawn(acc: Drawn, c: CallView) -> Drawn {
    with_frame(
        acc,
        vert(),
        Fill::Empty,
        match c.rets_idl {
            Ok(rets) => with_frame(
                head_drawn(c),
                horz(),
                Fill::Empty,
                out_drawn(
                    with_text(
                        with_elm(blank(), span_view(c.duration)),
                        "\u{2501}\u{2501}\u{25ba}"@,
                        dim2_atts(),
                    ),
                    c.render_out,
                    rets,
                ),
            ),
            Err(msg) => with_frame(
                head_drawn(c),
                vert(),
                Fill::Empty,
                with_frame(
                    with_frame(
                        blank(),
                        horz(),
                        Fill::Empty,
                        with_text(
                            with_elm(blank(), span_view(c.duration)),
                            "\u{2501}\u{2501}\u{25ba} "@,
                            err_atts(),
                        ),
                    ),
                    horz(),
                    Fill::Empty,
                    with_text(with_text(blank(), " "@, err_atts()), msg, err_atts()),
                ),
            ),
        },
    )
}

/// The last `k` calls, the latest first.
pub open spec fn calls_drawn(history: Seq<CallView>, k: nat) -> Drawn
    decreases k,
{
    if k == 0 || k > history.len() {
        blank()
    } else {
        call_drawn(calls_drawn(history, (k - 1) as nat), history[history.len() - k])
    }
}

/// How many calls are shown at most.
pub open spec fn shown(len: nat) -> nat {
    if len < 10 {
        len
    } else {
        10
    }
}

/// What the session shows: where there are cells, a column headed
/// `Render cells:` with the cells on display; where there are calls, a
/// column headed `Message log:` with a box of the last ten calls, the latest
/// first.
pub open spec fn repl_drawn(r: ReplView) -> Drawn {
    let cells = if r.display.len() > 0 {
        with_frame(
            blank(),
            vert(),
            Fill::Empty,
            cells_drawn(
                with_text(blank(), "Render cells:"@, msg_atts()),
                r.display,
                r.display.len(),
            ),
        )
    } else {
        blank()
    };
    if r.history.len() > 0 {
        with_frame(
            cells,
            vert(),
            Fill::Empty,
            with_frame(
                with_text(blank(), "Message log:"@, msg_atts()),
                vert(),
                box_fill(),
                calls_drawn(r.history, shown(r.history.len())),
            ),
        )
    } else {
        cells
    }
}

fn draw_rets(pen: &mut Pen, rets: &String)
    ensures
        final(pen)@ == rets_drawn(old(pen)@, rets@),
{
    let s = rets.as_str();
    assert(s.spec_bytes() == encode_utf8(rets@));
    if s.len() > 80 {
        if s.is_char_boundary(80) {
            let (head, _) = s.split_at(80);
            proof {
                vstd::utf8::encode_utf8_decode_utf8(head@);
                assert(head.spec_bytes() == encode_utf8(head@));
                assert(encode_utf8(head@) == encode_utf8(rets@).subrange(0, 80));
                assert(head@ == cut(rets@));
            }
            pen.text(&head.to_owned(), &atts(230, 230, 230));
            pen.str("...", &atts(230, 230, 230));
        } else {
            pen.fail();
        }
    } else {
        pen.text(rets, &atts(230, 230, 230));
    }
}

fn draw_head(call: &Call) -> (pen: Pen)
    ensures
        pen@ == head_drawn(call@),
{
    let mut head = Pen::new();
    head.text(&call.method, &atts(200, 200, 255));
    head.text(&call.args_idl, &atts(230, 230, 230));
    let mut pen = Pen::new();
    pen.frame(flow(Dir2D::Right), Fill::Empty, head);
    pen
}

fn draw_call(pen: &mut Pen, call: &Call)
    ensures
        final(pen)@ == call_drawn(old(pen)@, call@),
{
    let mut entry = draw_head(call);
    match &call.rets_idl {
        Ok(rets_idl) => {
            let mut row = Pen::new();
            draw_span(&mut row, call.duration);
            row.str("\u{2501}\u{2501}\u{25ba}", &atts(200, 180, 200));
            match &call.render_out {
                None => {
                    draw_rets(&mut row, rets_idl);
                },
                Some(Out::Draw(elm)) => {
                    row.elm(elm.clone());
                },
                Some(Out::Redraw(named_elms)) => {
                    draw_cells(&mut row, named_elms);
                },
            }
            entry.frame(flow(Dir2D::Right), Fill::Empty, row);
        },
        Err(msg) => {
            let mut took = Pen::new();
            draw_span(&mut took, call.duration);
            took.str("\u{2501}\u{2501}\u{25ba} ", &atts(255, 100, 100));
            let mut rows = Pen::new();
            rows.frame(flow(Dir2D::Right), Fill::Empty, took);
            let mut line = Pen::new();
            line.str(" ", &atts(255, 100, 100));
            line.text(msg, &atts(255, 100, 100));
            rows.frame(flow(Dir2D::Right), Fill::Empty, line);
            entry.frame(flow(Dir2D::Down), Fill::Empty, rows);
        },
    }
    pen.frame(flow(Dir2D::Down), Fill::Empty, entry);
}

/// What the session shows, where it can be drawn.
pub fn draw_repl(repl: &Repl) -> (pen: Pen)
    ensures
        pen@ == repl_drawn(repl@),
{
    let mut pen = Pen::new();
    if repl.display.len() > 0 {
        let mut cells = Pen::new();
        cells.str("Render cells:", &atts(200, 200, 255));
        draw_cells(&mut cells, &repl.display);
        pen.frame(flow(Dir2D::Down), Fill::Empty, cells);
    }
    let len = repl.history.len();
    if len > 0 {
        let ghost history = repl@.history;
        let most: usize = if len < 10 {
            len
        } else {
            10
        };
        let mut calls = Pen::new();
        let mut k: usize = 0;
        while k < most
            invariant
                history == repl@.history,
                history.len() == repl.history@.len(),
                len == repl.history@.len(),
                most <= len,
                k <= most,
                calls@ == calls_drawn(history, k as nat),
            decreases most - k,
        {
            k += 1;
            assert(history[len - k] == repl.history@[len - k]@);
            draw_call(&mut calls, &repl.history[len - k]);
        }
        let mut log = Pen::new();
        log.str("Message log:", &atts(200, 200, 255));
        log.frame(flow(Dir2D::Down), open(50, 100, 50), calls);
        pen.frame(flow(Dir2D::Down), Fill::Empty, log);
    }
    pen
}

/// Draws what the session shows at the end of the present frame of `r`, and
/// says whether that was done. Nothing is drawn where a name stands for a
/// digest, where a span of time holds a second or more of billionths, where
/// a text that is too long cannot be cut, or where the layout does not fit
/// the machine's numbers.
pub fn render_elms(repl: &Repl, r: &mut Render) -> (done: bool)
    ensures
        match repl_drawn(repl@) {
            Some(es) => done && final(r)@ == old(r)@.with_all(es),
            None => !done && final(r)@ == old(r)@,
        },
{
    match draw_repl(repl).done() {
        Some(elms) => {
            r.add(elms);
            true
        },
        None => false,
    }
}

} // verus!
