//! Drawing that cannot go wrong half way: a pen gathers elements, and once
//! something does not fit the machine's numbers it has drawn nothing.

use crate::menu::text::printable;
use crate::render::draw::{name_label, text_fits, text_node};
use crate::render::layout::{elm_of_frame, frame_does_fit, frame_fits, node_of};
use crate::render::{Frame, FrameType, FrameView, Render, TextAtts};
use crate::types::lang::{Name, NameView};
use crate::types::render::{elms_model, Elm, ElmView, Elms, Fill};
use vstd::prelude::*;

verus! {

/// The elements drawn so far, unless something did not fit.
#[derive(Debug)]
pub struct Pen {
    pub elms: Elms,
    pub ok: bool,
}

/// What has been drawn, or nothing where something did not fit.
pub type Drawn = Option<Seq<ElmView>>;

impl View for Pen {
    type V = Drawn;

    open spec fn view(&self) -> Drawn {
        if self.ok {
            Some(elms_model(self.elms@))
        } else {
            None
        }
    }
}

/// Nothing drawn yet.
pub open spec fn blank() -> Drawn {
    Some(Seq::empty())
}

/// One more element, where there is one.
pub open spec fn with_elm(acc: Drawn, e: Option<ElmView>) -> Drawn {
    match (acc, e) {
        (Some(es), Some(x)) => Some(es.push(x)),
        _ => None,
    }
}

/// More elements, where they were drawn.
pub open spec fn with_all(acc: Drawn, more: Drawn) -> Drawn {
    match (acc, more) {
        (Some(es), Some(xs)) => Some(es + xs),
        _ => None,
    }
}

/// The node of a text, where the text can be drawn.
pub open spec fn text_view(s: Seq<char>, ta: TextAtts) -> Option<ElmView> {
    if text_fits(s, ta) {
        Some(text_node(s, ta))
    } else {
        None
    }
}

/// The node of a name, where the name can be written and drawn.
pub open spec fn name_view(n: NameView, ta: TextAtts) -> Option<ElmView> {
    if printable(n) {
        text_view(name_label(n), ta)
    } else {
        None
    }
}

/// The node of a frame without a name around what was drawn, where that was
/// drawn and the frame can be laid out.
pub open spec fn framed(typ: FrameType, fill: Fill, inner: Drawn) -> Option<ElmView> {
    match inner {
        Some(elms) => {
            let f = FrameView { name: NameView::Void, fill, typ, elms };
            if frame_fits(f) {
                Some(node_of(f))
            } else {
                None
            }
        },
        None => None,
    }
}

/// One more text.
pub open spec fn with_text(acc: Drawn, s: Seq<char>, ta: TextAtts) -> Drawn {
    with_elm(acc, text_view(s, ta))
}

/// One more name.
pub open spec fn with_name(acc: Drawn, n: NameView, ta: TextAtts) -> Drawn {
    with_elm(acc, name_view(n, ta))
}

/// One more frame, around what `inner` drew.
pub open spec fn with_frame(acc: Drawn, typ: FrameType, fill: Fill, inner: Drawn) -> Drawn {
    with_elm(acc, framed(typ, fill, inner))
}

impl Pen {
    /// A pen that has drawn nothing yet.
    pub fn new() -> (pen: Pen)
        ensures
            pen@ == blank(),
    {
        let pen = Pen { elms: Vec::new(), ok: true };
        assert(elms_model(pen.elms@) =~= Seq::<ElmView>::empty());
        pen
    }

    /// Gives up what was drawn: something cannot be drawn at all.
    pub fn fail(&mut self)
        ensures
            final(self)@ is None,
    {
        self.ok = false;
        self.elms = Vec::new();
    }

    /// Draws an element.
    pub fn elm(&mut self, elm: Elm)
        ensures
            final(self)@ == with_elm(old(self)@, Some(elm@)),
    {
        if self.ok {
            let ghost e0 = self.elms@;
            self.elms.push(elm);
            assert(elms_model(self.elms@) =~= elms_model(e0).push(elm@));
        }
    }

    /// Draws what another pen drew.
    pub fn all(&mut self, more: Pen)
        ensures
            final(self)@ == with_all(old(self)@, more@),
    {
        if self.ok {
            if more.ok {
                let mut more_elms = more.elms;
                let ghost e0 = self.elms@;
                let ghost e1 = more_elms@;
                self.elms.append(&mut more_elms);
                assert(elms_model(self.elms@) =~= elms_model(e0) + elms_model(e1));
            } else {
                self.fail();
            }
        }
    }

    /// Draws a text.
    pub fn text(&mut self, s: &String, ta: &TextAtts)
        ensures
            final(self)@ == with_text(old(self)@, s@, *ta),
    {
        if self.ok {
            let mut r = Render::new();
            if r.try_text(s, ta) {
                let mut elms = r.into_elms();
                assert(elms_model(elms@) =~= seq![text_node(s@, *ta)]);
                assert(elms@[0]@ == elms_model(elms@)[0]);
                let e = elms.pop().unwrap();
                self.elm(e);
            } else {
                self.fail();
            }
        }
    }

    /// Draws the text `s`.
    pub fn str(&mut self, s: &str, ta: &TextAtts)
        ensures
            final(self)@ == with_text(old(self)@, s@, *ta),
    {
        self.text(&s.to_owned(), ta)
    }

    /// Draws a name.
    pub fn name(&mut self, n: &Name, ta: &TextAtts)
        ensures
            final(self)@ == with_name(old(self)@, n@, *ta),
    {
        if self.ok {
            let mut r = Render::new();
            if r.try_name(n, ta) {
                let mut elms = r.into_elms();
                assert(elms_model(elms@) =~= seq![text_node(name_label(n@), *ta)]);
                assert(elms@[0]@ == elms_model(elms@)[0]);
                let e = elms.pop().unwrap();
                self.elm(e);
            } else {
                self.fail();
            }
        }
    }

    /// Draws a frame without a name around what `inner` drew.
    pub fn frame(&mut self, typ: FrameType, fill: Fill, inner: Pen)
        ensures
            final(self)@ == with_frame(old(self)@, typ, fill, inner@),
    {
        if self.ok {
            if inner.ok {
                let f = Frame { name: Name::Void, fill, typ, elms: inner.elms };
                if frame_does_fit(&f) {
                    let e = elm_of_frame(f);
                    self.elm(e);
                } else {
                    self.fail();
                }
            } else {
                self.fail();
            }
        }
    }

    /// What was drawn, where everything fitted.
    pub fn done(self) -> (r: Option<Elms>)
        ensures
            match self@ {
                Some(es) => r matches Some(x) && elms_model(x@) == es,
                None => r is None,
            },
    {
        if self.ok {
            Some(self.elms)
        } else {
            None
        }
    }
}

} // verus!
