//! Laying out what is drawn: frames of elements that are opened, filled and
//! closed, and the arithmetic that places the elements of a closed frame.

pub mod draw;
pub mod glyph;
pub mod layout;
pub mod pen;

use crate::render::layout::{elm_of_frame, frame_does_fit, frame_fits, node_of};
use crate::types::lang::{Dir2D, Name, NameView};
use crate::types::render::{clone_elms, elms_model, Dim, Elm, ElmView, Elms, Fill, Rect};
use vstd::prelude::*;

verus! {

/// How a bitmap is drawn: the side of one bit, and the fills of set and
/// clear bits.
#[derive(Clone, Copy, Debug, PartialEq, Eq, Structural, Hash)]
pub struct BitmapAtts {
    pub zoom: usize,
    pub fill_isset: Fill,
    pub fill_notset: Fill,
}

/// How text is drawn.
#[derive(Clone, Copy, Debug, PartialEq, Eq, Structural, Hash)]
pub struct TextAtts {
    pub zoom: usize,
    pub fg_fill: Fill,
    pub bg_fill: Fill,
    pub glyph_dim: Dim,
    pub glyph_flow: FlowAtts,
}

/// How the elements of a frame follow one another.
#[derive(Clone, Copy, Debug, PartialEq, Eq, Structural, Hash)]
pub struct FlowAtts {
    pub dir: Dir2D,
    pub intra_pad: usize,
    pub inter_pad: usize,
}

/// How a frame places its elements.
#[derive(Clone, Copy, Debug, PartialEq, Eq, Structural, Hash)]
pub enum FrameType {
    /// The elements stay where they are.
    Free,
    /// The elements follow one another in a direction.
    Flow(FlowAtts),
}

/// A group of elements in the making.
#[derive(Debug, Hash)]
pub struct Frame {
    pub name: Name,
    pub fill: Fill,
    pub typ: FrameType,
    pub elms: Elms,
}

/// The frame that is being filled, and the frames around it that wait to be
/// resumed, the innermost last.
#[derive(Debug, Hash)]
pub struct Render {
    pub frame: Frame,
    pub stack: Vec<Frame>,
}

/// Elements with the names of the places that they go to.
pub type NamedElms = Vec<(Name, Elm)>;

/// What a service asks to be drawn.
#[derive(Debug, Hash)]
pub enum Out {
    /// One element, for the log.
    Draw(Elm),
    /// Named elements, for the display.
    Redraw(NamedElms),
}

/// What a `Frame` stands for.
pub struct FrameView {
    pub name: NameView,
    pub fill: Fill,
    pub typ: FrameType,
    pub elms: Seq<ElmView>,
}

impl View for Frame {
    type V = FrameView;

    open spec fn view(&self) -> FrameView {
        FrameView { name: self.name@, fill: self.fill, typ: self.typ, elms: elms_model(self.elms@) }
    }
}

/// What a `Render` stands for.
pub struct RenderView {
    pub frame: FrameView,
    pub stack: Seq<FrameView>,
}

impl View for Render {
    type V = RenderView;

    open spec fn view(&self) -> RenderView {
        RenderView { frame: self.frame@, stack: Seq::new(self.stack@.len(), |i: int| self.stack@[i]@) }
    }
}

impl FrameView {
    /// An empty frame of the given name and kind, with no fill.
    pub open spec fn empty(name: NameView, typ: FrameType) -> FrameView {
        FrameView { name, fill: Fill::Empty, typ, elms: Seq::empty() }
    }

    /// The frame with one more element at its end.
    pub open spec fn with(self, elm: ElmView) -> FrameView {
        FrameView { elms: self.elms.push(elm), ..self }
    }
}

impl RenderView {
    /// Nothing opened, nothing drawn.
    pub open spec fn fresh() -> RenderView {
        RenderView { frame: FrameView::empty(NameView::Void, FrameType::Free), stack: Seq::empty() }
    }

    /// A new frame opened inside the present one.
    pub open spec fn begin(self, name: NameView, typ: FrameType) -> RenderView {
        RenderView { frame: FrameView::empty(name, typ), stack: self.stack.push(self.frame) }
    }

    /// The present frame closed: laid out as one node, which becomes the last
    /// element of the frame around it.
    pub open spec fn end(self) -> RenderView {
        RenderView { frame: self.stack.last().with(node_of(self.frame)), stack: self.stack.drop_last() }
    }

    /// One more element in the present frame.
    pub open spec fn with(self, elm: ElmView) -> RenderView {
        RenderView { frame: self.frame.with(elm), ..self }
    }

    /// More elements in the present frame.
    pub open spec fn with_all(self, elms: Seq<ElmView>) -> RenderView {
        RenderView { frame: FrameView { elms: self.frame.elms + elms, ..self.frame }, ..self }
    }
}

impl Render {
    pub fn new() -> (r: Render)
        ensures
            r@ == RenderView::fresh(),
    {
        let r = Render {
            frame: Frame { name: Name::Void, fill: Fill::Empty, elms: Vec::new(), typ: FrameType::Free },
            stack: Vec::new(),
        };
        assert(r@.stack =~= Seq::empty());
        assert(r@.frame.elms =~= Seq::empty());
        r
    }

    /// Opens a new frame inside the present one.
    pub fn begin(&mut self, name: &Name, typ: FrameType)
        ensures
            final(self)@ == old(self)@.begin(name@, typ),
    {
        let mut top = Frame { name: name.clone(), fill: Fill::Empty, typ, elms: Vec::new() };
        assert(top@.elms =~= Seq::empty());
        core::mem::swap(&mut self.frame, &mut top);
        let ghost s0 = self@.stack;
        self.stack.push(top);
        assert(self@.stack =~= s0.push(top@));
    }

    /// Puts what `r` has drawn at the end of the present frame. `r` must
    /// have closed every frame that it opened.
    pub fn nest(&mut self, _name: &Name, r: Render)
        requires
            r@.stack.len() == 0,
        ensures
            final(self)@ == old(self)@.with_all(r@.frame.elms),
    {
        let mut r_elms = r.into_elms();
        let ghost e0 = self.frame.elms@;
        let ghost e1 = r_elms@;
        self.frame.elms.append(&mut r_elms);
        assert(elms_model(self.frame.elms@) =~= elms_model(e0) + elms_model(e1));
    }

    /// Sets the fill of the present frame.
    pub fn fill(&mut self, f: Fill)
        ensures
            final(self)@ == (RenderView {
                frame: FrameView { fill: f, ..old(self)@.frame },
                ..old(self)@
            }),
    {
        self.frame.fill = f;
    }

    /// Closes the present frame: its elements are laid out, and the node
    /// that holds them becomes the last element of the frame around it.
    /// There must be a frame around it, and the layout must fit the machine's
    /// numbers.
    pub fn end(&mut self)
        requires
            old(self)@.stack.len() > 0,
            frame_fits(old(self)@.frame),
        ensures
            final(self)@ == old(self)@.end(),
    {
        let ghost s0 = self@.stack;
        let mut saved = self.stack.pop().unwrap();
        assert(saved@ == s0.last());
        assert(self@.stack =~= s0.drop_last());
        core::mem::swap(&mut self.frame, &mut saved);
        let elm = elm_of_frame(saved);
        let ghost e0 = self.frame.elms@;
        self.frame.elms.push(elm);
        assert(elms_model(self.frame.elms@) =~= elms_model(e0).push(elm@));
    }

    /// Puts a rectangle at the end of the present frame.
    pub fn rect(&mut self, r: &Rect, f: Fill)
        ensures
            final(self)@ == old(self)@.with(ElmView::Rect(*r, f)),
    {
        let ghost e0 = self.frame.elms@;
        self.frame.elms.push(Elm::Rect(*r, f));
        assert(elms_model(self.frame.elms@) =~= elms_model(e0).push(ElmView::Rect(*r, f)));
    }

    /// Puts an element at the end of the present frame.
    pub fn elm(&mut self, elm: Elm)
        ensures
            final(self)@ == old(self)@.with(elm@),
    {
        let ghost e0 = self.frame.elms@;
        self.frame.elms.push(elm);
        assert(elms_model(self.frame.elms@) =~= elms_model(e0).push(elm@));
    }

    /// Puts the elements at the end of the present frame.
    pub fn add(&mut self, elms: Elms)
        ensures
            final(self)@ == old(self)@.with_all(elms_model(elms@)),
    {
        let mut elms = elms;
        let ghost e0 = self.frame.elms@;
        let ghost e1 = elms@;
        self.frame.elms.append(&mut elms);
        assert(elms_model(self.frame.elms@) =~= elms_model(e0) + elms_model(e1));
    }

    /// What has been drawn. Every frame that was opened must be closed.
    pub fn into_elms(self) -> (elms: Elms)
        requires
            self@.stack.len() == 0,
        ensures
            elms_model(elms@) == self@.frame.elms,
    {
        self.frame.elms
    }

    /// Whether the present frame can be closed: there is a frame around it,
    /// and its layout fits the machine's numbers.
    pub fn can_end(&self) -> (r: bool)
        ensures
            r == (self@.stack.len() > 0 && frame_fits(self@.frame)),
    {
        self.stack.len() > 0 && frame_does_fit(&self.frame)
    }

    /// Closes the present frame where that can be done, and says whether it
    /// was.
    pub fn try_end(&mut self) -> (done: bool)
        ensures
            done == (old(self)@.stack.len() > 0 && frame_fits(old(self)@.frame)),
            final(self)@ == (if done {
                old(self)@.end()
            } else {
                old(self)@
            }),
    {
        if self.can_end() {
            self.end();
            true
        } else {
            false
        }
    }
}

} // verus!
