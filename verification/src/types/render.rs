//! What goes out: rectangles, fills, and trees of them.

use crate::types::lang::{Name, NameView};
use vstd::prelude::*;
use vstd::std_specs::cmp::PartialEqSpecImpl;

verus! {

#[derive(Clone, Copy, Debug, PartialEq, Eq, Structural, Hash)]
pub enum Color {
    RGB(usize, usize, usize),
}

#[derive(Clone, Copy, Debug, PartialEq, Eq, Structural, Hash)]
pub struct Dim {
    pub width: usize,
    pub height: usize,
}

#[derive(Clone, Copy, Debug, PartialEq, Eq, Structural, Hash)]
pub struct Pos {
    pub x: isize,
    pub y: isize,
}

#[derive(Clone, Copy, Debug, PartialEq, Eq, Structural, Hash)]
pub struct Rect {
    pub pos: Pos,
    pub dim: Dim,
}

impl Rect {
    /// The rectangle of width `w` and height `h` whose corner is at `(x, y)`.
    pub fn new(x: isize, y: isize, w: usize, h: usize) -> (r: Rect)
        ensures
            r == (Rect { pos: Pos { x, y }, dim: Dim { width: w, height: h } }),
    {
        Rect { pos: Pos { x, y }, dim: Dim { width: w, height: h } }
    }
}

/// How a rectangle is painted.
#[derive(Clone, Copy, Debug, PartialEq, Eq, Structural, Hash)]
pub enum Fill {
    /// An outline of the given colour and border width.
    Open(Color, usize),
    /// The whole rectangle in the given colour.
    Closed(Color),
    /// Nothing is painted.
    Empty,
}

/// A named group of elements within a rectangle.
#[derive(Debug, Hash)]
pub struct Node {
    pub name: Name,
    pub rect: Rect,
    pub fill: Fill,
    pub children: Elms,
}

/// Something to draw: a rectangle, or a group.
#[derive(Debug, Hash)]
pub enum Elm {
    Rect(Rect, Fill),
    Node(Box<Node>),
}

pub type Elms = Vec<Elm>;

/// What an `Elm` stands for.
pub enum ElmView {
    Rect(Rect, Fill),
    Node { name: NameView, rect: Rect, fill: Fill, children: Seq<ElmView> },
}

/// The model of each element, in order.
pub open spec fn elms_model(v: Seq<Elm>) -> Seq<ElmView>
    decreases v,
{
    Seq::new(v.len(), |i: int| if 0 <= i < v.len() { v[i].model() } else { arbitrary() })
}

impl Elm {
    /// What this element stands for.
    pub open spec fn model(self) -> ElmView
        decreases self,
    {
        match self {
            Elm::Rect(r, f) => ElmView::Rect(r, f),
            Elm::Node(n) => ElmView::Node {
                name: n.name@,
                rect: n.rect,
                fill: n.fill,
                children: elms_model(n.children@),
            },
        }
    }
}

impl View for Elm {
    type V = ElmView;

    open spec fn view(&self) -> ElmView {
        self.model()
    }
}

impl ElmView {
    /// The rectangle that the element occupies.
    pub open spec fn rect(self) -> Rect {
        match self {
            ElmView::Rect(r, _) => r,
            ElmView::Node { rect, .. } => rect,
        }
    }
}

/// A copy of each element.
pub fn clone_elms(v: &Vec<Elm>) -> (r: Vec<Elm>)
    ensures
        elms_model(r@) == elms_model(v@),
    decreases v,
{
    let mut out: Vec<Elm> = Vec::new();
    let mut i: usize = 0;
    while i < v.len()
        invariant
            i <= v.len(),
            out.len() == i,
            forall|j: int| 0 <= j < i ==> out@[j]@ == v@[j]@,
        decreases v.len() - i,
    {
        out.push(v[i].clone());
        i += 1;
    }
    assert(elms_model(out@) =~= elms_model(v@));
    out
}

impl Clone for Elm {
    fn clone(&self) -> (r: Elm)
        ensures
            r@ == self@,
        decreases self,
    {
        match self {
            Elm::Rect(r, f) => Elm::Rect(*r, *f),
            Elm::Node(n) => Elm::Node(
                Box::new(
                    Node {
                        name: n.name.clone(),
                        rect: n.rect,
                        fill: n.fill,
                        children: clone_elms(&n.children),
                    },
                ),
            ),
        }
    }
}

/// Whether both lists hold the same elements in the same order.
pub fn same_elms(a: &Vec<Elm>, b: &Vec<Elm>) -> (r: bool)
    ensures
        r == (elms_model(a@) == elms_model(b@)),
    decreases a,
{
    if a.len() != b.len() {
        assert(elms_model(a@).len() != elms_model(b@).len());
        return false;
    }
    let mut i: usize = 0;
    while i < a.len()
        invariant
            a.len() == b.len(),
            i <= a.len(),
            forall|j: int| 0 <= j < i ==> a@[j]@ == b@[j]@,
        decreases a.len() - i,
    {
        if !a[i].same(&b[i]) {
            assert(elms_model(a@)[i as int] != elms_model(b@)[i as int]);
            return false;
        }
        i += 1;
    }
    assert(elms_model(a@) =~= elms_model(b@));
    true
}

impl Elm {
    /// Whether both stand for the same element.
    pub fn same(&self, other: &Elm) -> (r: bool)
        ensures
            r == (self@ == other@),
        decreases self,
    {
        match (self, other) {
            (Elm::Rect(r1, f1), Elm::Rect(r2, f2)) => *r1 == *r2 && *f1 == *f2,
            (Elm::Node(n1), Elm::Node(n2)) => n1.name.same(&n2.name) && n1.rect == n2.rect
                && n1.fill == n2.fill && same_elms(&n1.children, &n2.children),
            _ => false,
        }
    }
}

impl PartialEq for Elm {
    fn eq(&self, other: &Elm) -> (r: bool) {
        self.same(other)
    }
}

impl PartialEqSpecImpl for Elm {
    open spec fn obeys_eq_spec() -> bool {
        true
    }

    open spec fn eq_spec(&self, other: &Elm) -> bool {
        self@ == other@
    }
}

impl Eq for Elm {

}

} // verus!
