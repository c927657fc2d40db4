//! Drawing bitmaps and text into a frame.

use crate::bitmap::semantics::{bitmap_get_bit, bitmap_get_size};
use crate::bitmap::{Bitmap, BitmapView};
use crate::menu::text::{
    is_printable, name_debug_text, name_text, printable, push_bool, push_name_debug, push_nat,
};
use crate::render::glyph::{glyph_mask, glyph_of, mask_bitmap};
use crate::render::layout::{frame_fits, node_of};
use crate::render::{BitmapAtts, FrameType, FrameView, Render, RenderView, TextAtts};
use crate::types::lang::{Atom, Name, NameView};
use crate::types::render::{Dim, ElmView, Fill, Pos, Rect};
use vstd::prelude::*;
use vstd::string::StrSliceExecFns;

verus! {

// ---------------------------------------------------------------------------
// Bitmaps

/// The square that stands for the bit at `(x, y)`: `zoom` wide and high, at
/// `zoom` times its coordinate, filled as set or as clear.
pub open spec fn cell(bm: BitmapView, ba: BitmapAtts, x: int, y: int) -> ElmView {
    ElmView::Rect(
        Rect {
            pos: Pos { x: (x * ba.zoom) as isize, y: (y * ba.zoom) as isize },
            dim: Dim { width: ba.zoom, height: ba.zoom },
        },
        if bm.bit(x, y) {
            ba.fill_isset
        } else {
            ba.fill_notset
        },
    )
}

/// The squares of the first `n` bits of row `y`, from left to right.
pub open spec fn row_cells(bm: BitmapView, ba: BitmapAtts, y: int, n: nat) -> Seq<ElmView>
    decreases n,
{
    if n == 0 {
        Seq::empty()
    } else {
        row_cells(bm, ba, y, (n - 1) as nat).push(cell(bm, ba, n - 1, y))
    }
}

/// The squares of the first `m` rows, row after row from the top.
pub open spec fn grid_cells(bm: BitmapView, ba: BitmapAtts, m: nat) -> Seq<ElmView>
    decreases m,
{
    if m == 0 {
        Seq::empty()
    } else {
        grid_cells(bm, ba, (m - 1) as nat) + row_cells(bm, ba, m - 1, bm.width)
    }
}

/// The bitmap can be drawn: it is well formed, and the far edges of its
/// squares are machine coordinates.
pub open spec fn bitmap_fits(bm: BitmapView, ba: BitmapAtts) -> bool {
    &&& bm.wf()
    &&& bm.width * ba.zoom <= isize::MAX
    &&& bm.height * ba.zoom <= isize::MAX
}

impl Render {
    /// Puts one square for each bit of the bitmap at the end of the present
    /// frame, row after row.
    pub fn bitmap(&mut self, bm: &Bitmap, ba: &BitmapAtts)
        requires
            bitmap_fits(bm@, *ba),
        ensures
            final(self)@ == old(self)@.with_all(grid_cells(bm@, *ba, bm@.height)),
    {
        let (width, height) = bitmap_get_size(bm);
        let ghost start = self@;
        assert(self@ == start.with_all(grid_cells(bm@, *ba, 0))) by {
            assert(start.frame.elms + Seq::<ElmView>::empty() =~= start.frame.elms);
        }
        let mut y: usize = 0;
        while y < height
            invariant
                bitmap_fits(bm@, *ba),
                width == bm@.width,
                height == bm@.height,
                y <= height,
                self@ == start.with_all(grid_cells(bm@, *ba, y as nat)),
            decreases height - y,
        {
            let ghost row_start = self@;
            let mut x: usize = 0;
            assert(self@ == row_start.with_all(row_cells(bm@, *ba, y as int, 0))) by {
                assert(row_start.frame.elms + Seq::<ElmView>::empty() =~= row_start.frame.elms);
            }
            while x < width
                invariant
                    bitmap_fits(bm@, *ba),
                    width == bm@.width,
                    height == bm@.height,
                    y < height,
                    x <= width,
                    self@ == row_start.with_all(row_cells(bm@, *ba, y as int, x as nat)),
                decreases width - x,
            {
                assert(x * ba.zoom <= bm@.width * ba.zoom && y * ba.zoom <= bm@.height * ba.zoom)
                    by (nonlinear_arith)
                    requires
                        x < bm@.width,
                        y < bm@.height,
                        ba.zoom >= 0,
                ;
                let cell_rect = Rect::new(
                    (x * ba.zoom) as isize,
                    (y * ba.zoom) as isize,
                    ba.zoom,
                    ba.zoom,
                );
                let bit = bitmap_get_bit(bm, x, y);
                let cell_fill = if bit {
                    ba.fill_isset
                } else {
                    ba.fill_notset
                };
                let ghost before = self@;
                self.rect(&cell_rect, cell_fill);
                x += 1;
                assert(self@ == row_start.with_all(row_cells(bm@, *ba, y as int, x as nat))) by {
                    assert(row_start.frame.elms + row_cells(bm@, *ba, y as int, x as nat)
                        =~= before.frame.elms.push(cell(bm@, *ba, x - 1, y as int)));
                }
            }
            y += 1;
            assert(self@ == start.with_all(grid_cells(bm@, *ba, y as nat))) by {
                assert(start.frame.elms + grid_cells(bm@, *ba, y as nat) =~= row_start.frame.elms
                    + row_cells(bm@, *ba, y - 1, bm@.width));
            }
        }
    }
}

// ---------------------------------------------------------------------------
// Text

/// What `std`'s `to_lowercase` makes of a text.
pub uninterp spec fn lowercase_text(s: Seq<char>) -> Seq<char>;

/// Calls `char::to_string`: the text of the one character.
#[verifier::external_body]
fn char_string(c: char) -> (s: String)
    ensures
        s@ == seq![c],
{
    c.to_string()
}

/// Calls `str::to_lowercase`: the lowercase of a text, a function of the text
/// alone.
#[verifier::external_body]
fn lowercase(s: &String) -> (r: String)
    ensures
        r@ == lowercase_text(s@),
{
    s.to_lowercase()
}

/// How the bits of a glyph are drawn as part of a text.
pub open spec fn glyph_atts(ta: TextAtts) -> BitmapAtts {
    BitmapAtts { zoom: ta.zoom, fill_isset: ta.fg_fill, fill_notset: ta.bg_fill }
}

/// The frame of one character: the squares of its glyph, or nothing where
/// the lowercase of the character has no glyph.
pub open spec fn glyph_frame(c: char, ta: TextAtts) -> FrameView {
    FrameView {
        name: NameView::Void,
        fill: Fill::Empty,
        typ: FrameType::Free,
        elms: match glyph_mask(lowercase_text(seq![c])) {
            Some(m) => grid_cells(mask_bitmap(m), glyph_atts(ta), 5),
            None => Seq::empty(),
        },
    }
}

/// The nodes of the first `n` characters.
pub open spec fn glyph_nodes(s: Seq<char>, ta: TextAtts, n: nat) -> Seq<ElmView>
    decreases n,
{
    if n == 0 || n > s.len() {
        Seq::empty()
    } else {
        glyph_nodes(s, ta, (n - 1) as nat).push(node_of(glyph_frame(s[n - 1], ta)))
    }
}

/// The frame of a text: the nodes of its characters in the flow of glyphs.
pub open spec fn text_frame(s: Seq<char>, ta: TextAtts) -> FrameView {
    FrameView {
        name: NameView::Void,
        fill: Fill::Empty,
        typ: FrameType::Flow(ta.glyph_flow),
        elms: glyph_nodes(s, ta, s.len()),
    }
}

/// The text can be drawn: glyphs are five by five, and the layout of each
/// character and of the whole text fits the machine's numbers.
pub open spec fn text_fits(s: Seq<char>, ta: TextAtts) -> bool {
    &&& ta.glyph_dim == (Dim { width: 5, height: 5 })
    &&& 5 * ta.zoom <= isize::MAX
    &&& forall|i: int| 0 <= i < s.len() ==> frame_fits(glyph_frame(#[trigger] s[i], ta))
    &&& frame_fits(text_frame(s, ta))
}

/// The node that a text is drawn as.
pub open spec fn text_node(s: Seq<char>, ta: TextAtts) -> ElmView {
    node_of(text_frame(s, ta))
}

/// The text of an atom: a boolean or a number as usual, a text as it is.
pub open spec fn atom_text(a: crate::types::lang::AtomView) -> Seq<char> {
    name_text(NameView::Atom(a))
}

/// The text that a name is drawn as: an atom by its text, any other name
/// spelled out with its constructors.
pub open spec fn name_label(n: NameView) -> Seq<char> {
    match n {
        NameView::Atom(a) => atom_text(a),
        _ => name_debug_text(n),
    }
}

impl Render {
    /// Draws `text` as one node at the end of the present frame: a flow of
    /// one node for each character, which holds the squares of its glyph.
    pub fn text(&mut self, text: &String, ta: &TextAtts)
        requires
            text_fits(text@, *ta),
        ensures
            final(self)@ == old(self)@.with(text_node(text@, *ta)),
    {
        let ba = BitmapAtts { zoom: ta.zoom, fill_isset: ta.fg_fill, fill_notset: ta.bg_fill };
        let ghost start = self@;
        let ghost flow_frame = FrameView::empty(NameView::Void, FrameType::Flow(ta.glyph_flow));
        self.begin(&Name::Void, FrameType::Flow(ta.glyph_flow));
        let s = text.as_str();
        let len = s.unicode_len();
        let mut i: usize = 0;
        assert(glyph_nodes(text@, *ta, 0) =~= Seq::<ElmView>::empty());
        while i < len
            invariant
                text_fits(text@, *ta),
                s@ == text@,
                len == text@.len(),
                ba == glyph_atts(*ta),
                i <= len,
                flow_frame == FrameView::empty(NameView::Void, FrameType::Flow(ta.glyph_flow)),
                self@ == (RenderView {
                    frame: FrameView {
                        elms: glyph_nodes(text@, *ta, i as nat),
                        ..flow_frame
                    },
                    stack: start.stack.push(start.frame),
                }),
            decreases len - i,
        {
            let c = s.get_char(i);
            let ghost outer = self@;
            assert(frame_fits(glyph_frame(text@[i as int], *ta)));
            self.begin(&Name::Void, FrameType::Free);
            let key = lowercase(&char_string(c));
            match glyph_of(&key) {
                None => {},
                Some(bm) => {
                    assert(5 * ba.zoom <= isize::MAX);
                    self.bitmap(&bm, &ba);
                    assert(Seq::<ElmView>::empty() + grid_cells(bm@, ba, 5) =~= grid_cells(
                        bm@,
                        ba,
                        5,
                    ));
                },
            }
            assert(self@.frame == glyph_frame(c, *ta));
            self.end();
            i += 1;
            assert(self@.stack =~= start.stack.push(start.frame));
        }
        assert(self@.frame == text_frame(text@, *ta));
        self.end();
        assert(self@.stack =~= start.stack);
    }

    /// Draws the text `s`.
    pub fn str(&mut self, s: &str, ta: &TextAtts)
        requires
            text_fits(s@, *ta),
        ensures
            final(self)@ == old(self)@.with(text_node(s@, *ta)),
    {
        self.text(&s.to_owned(), ta)
    }

    /// Draws an atom by its text.
    pub fn atom(&mut self, atom: &Atom, ta: &TextAtts)
        requires
            text_fits(atom_text(atom@), *ta),
        ensures
            final(self)@ == old(self)@.with(text_node(atom_text(atom@), *ta)),
    {
        match atom {
            Atom::Bool(b) => {
                let mut t = String::new();
                push_bool(&mut t, *b);
                assert(t@ =~= atom_text(atom@));
                self.text(&t, ta)
            },
            Atom::Usize(u) => {
                let mut t = String::new();
                push_nat(&mut t, *u);
                assert(t@ =~= atom_text(atom@));
                self.text(&t, ta)
            },
            Atom::String(s) => self.text(s, ta),
        }
    }

    /// Draws a name: an atom by its text, any other name spelled out with
    /// its constructors.
    pub fn name(&mut self, name: &Name, ta: &TextAtts)
        requires
            printable(name@),
            text_fits(name_label(name@), *ta),
        ensures
            final(self)@ == old(self)@.with(text_node(name_label(name@), *ta)),
    {
        match name {
            Name::Atom(a) => self.atom(a, ta),
            _ => {
                let mut t = String::new();
                push_name_debug(&mut t, name);
                assert(t@ =~= name_label(name@));
                self.text(&t, ta)
            },
        }
    }
}

// ---------------------------------------------------------------------------
// Asking first

/// Whether `a * b` is at most `isize::MAX`.
fn product_fits(a: usize, b: usize) -> (r: bool)
    ensures
        r == (a * b <= isize::MAX),
{
    if b == 0 {
        assert(a * b == 0) by (nonlinear_arith)
            requires
                b == 0,
        ;
        true
    } else {
        assert((a * b <= isize::MAX) == (a <= isize::MAX as int / b as int)) by (nonlinear_arith)
            requires
                a >= 0,
                b > 0,
        ;
        a <= (isize::MAX as usize) / b
    }
}

/// Whether the bitmap can be drawn.
pub fn bitmap_does_fit(bm: &Bitmap, ba: &BitmapAtts) -> (r: bool)
    ensures
        r == bitmap_fits(bm@, *ba),
{
    bm.is_wf() && product_fits(bm.width, ba.zoom) && product_fits(bm.height, ba.zoom)
}

/// Whether the text can be drawn. The layout is tried on a sheet of its own.
pub fn text_does_fit(text: &String, ta: &TextAtts) -> (r: bool)
    ensures
        r == text_fits(text@, *ta),
{
    if ta.glyph_dim.width != 5 || ta.glyph_dim.height != 5 {
        return false;
    }
    if ta.zoom > (isize::MAX as usize) / 5 {
        return false;
    }
    let ba = BitmapAtts { zoom: ta.zoom, fill_isset: ta.fg_fill, fill_notset: ta.bg_fill };
    let mut scratch = Render::new();
    let ghost start = scratch@;
    let ghost flow_frame = FrameView::empty(NameView::Void, FrameType::Flow(ta.glyph_flow));
    scratch.begin(&Name::Void, FrameType::Flow(ta.glyph_flow));
    let s = text.as_str();
    let len = s.unicode_len();
    let mut i: usize = 0;
    assert(glyph_nodes(text@, *ta, 0) =~= Seq::<ElmView>::empty());
    while i < len
        invariant
            ta.glyph_dim == (Dim { width: 5, height: 5 }),
            5 * ta.zoom <= isize::MAX,
            s@ == text@,
            len == text@.len(),
            ba == glyph_atts(*ta),
            i <= len,
            start == RenderView::fresh(),
            flow_frame == FrameView::empty(NameView::Void, FrameType::Flow(ta.glyph_flow)),
            forall|k: int| 0 <= k < i ==> frame_fits(glyph_frame(#[trigger] text@[k], *ta)),
            scratch@ == (RenderView {
                frame: FrameView { elms: glyph_nodes(text@, *ta, i as nat), ..flow_frame },
                stack: start.stack.push(start.frame),
            }),
        decreases len - i,
    {
        let c = s.get_char(i);
        scratch.begin(&Name::Void, FrameType::Free);
        let key = lowercase(&char_string(c));
        match glyph_of(&key) {
            None => {},
            Some(bm) => {
                scratch.bitmap(&bm, &ba);
                assert(Seq::<ElmView>::empty() + grid_cells(bm@, ba, 5) =~= grid_cells(bm@, ba, 5));
            },
        }
        assert(scratch@.frame == glyph_frame(c, *ta));
        if !scratch.try_end() {
            assert(!frame_fits(glyph_frame(text@[i as int], *ta)));
            return false;
        }
        i += 1;
        assert(scratch@.stack =~= start.stack.push(start.frame));
    }
    assert(scratch@.frame == text_frame(text@, *ta));
    scratch.can_end()
}

/// The text of an atom.
fn atom_string(atom: &Atom) -> (t: String)
    ensures
        t@ == atom_text(atom@),
{
    let mut t = String::new();
    match atom {
        Atom::Bool(b) => {
            push_bool(&mut t, *b);
        },
        Atom::Usize(u) => {
            push_nat(&mut t, *u);
        },
        Atom::String(s) => {
            t = s.clone();
        },
    }
    assert(t@ =~= atom_text(atom@));
    t
}

impl Render {
    /// Draws the bitmap where that can be done, and says whether it was.
    pub fn try_bitmap(&mut self, bm: &Bitmap, ba: &BitmapAtts) -> (done: bool)
        ensures
            done == bitmap_fits(bm@, *ba),
            final(self)@ == (if done {
                old(self)@.with_all(grid_cells(bm@, *ba, bm@.height))
            } else {
                old(self)@
            }),
    {
        if bitmap_does_fit(bm, ba) {
            self.bitmap(bm, ba);
            true
        } else {
            false
        }
    }

    /// Draws `text` where that can be done, and says whether it was.
    pub fn try_text(&mut self, text: &String, ta: &TextAtts) -> (done: bool)
        ensures
            done == text_fits(text@, *ta),
            final(self)@ == (if done {
                old(self)@.with(text_node(text@, *ta))
            } else {
                old(self)@
            }),
    {
        if text_does_fit(text, ta) {
            self.text(text, ta);
            true
        } else {
            false
        }
    }

    /// Draws the text `s` where that can be done, and says whether it was.
    pub fn try_str(&mut self, s: &str, ta: &TextAtts) -> (done: bool)
        ensures
            done == text_fits(s@, *ta),
            final(self)@ == (if done {
                old(self)@.with(text_node(s@, *ta))
            } else {
                old(self)@
            }),
    {
        self.try_text(&s.to_owned(), ta)
    }

    /// Draws an atom where that can be done, and says whether it was.
    pub fn try_atom(&mut self, atom: &Atom, ta: &TextAtts) -> (done: bool)
        ensures
            done == text_fits(atom_text(atom@), *ta),
            final(self)@ == (if done {
                old(self)@.with(text_node(atom_text(atom@), *ta))
            } else {
                old(self)@
            }),
    {
        self.try_text(&atom_string(atom), ta)
    }

    /// Draws a name where that can be done, and says whether it was.
    pub fn try_name(&mut self, name: &Name, ta: &TextAtts) -> (done: bool)
        ensures
            done == (printable(name@) && text_fits(name_label(name@), *ta)),
            final(self)@ == (if done {
                old(self)@.with(text_node(name_label(name@), *ta))
            } else {
                old(self)@
            }),
    {
        if !is_printable(name) {
            return false;
        }
        match name {
            Name::Atom(a) => self.try_atom(a, ta),
            _ => {
                let mut t = String::new();
                push_name_debug(&mut t, name);
                assert(t@ =~= name_label(name@));
                self.try_text(&t, ta)
            },
        }
    }
}

} // verus!
