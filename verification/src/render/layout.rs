//! The arithmetic of layout: how large a frame is and where its elements go.
//!
//! The model computes over the integers; `frame_fits` says when every number
//! that the computation passes through fits the machine's numbers.

use crate::render::{FlowAtts, Frame, FrameType, FrameView};
use crate::types::lang::Dir2D;
use crate::types::render::{clone_elms, elms_model, Dim, Elm, ElmView, Elms, Node, Pos, Rect};
use vstd::prelude::*;

verus! {

/// The larger of two numbers.
pub open spec fn larger(a: int, b: int) -> int {
    if a >= b {
        a
    } else {
        b
    }
}

/// The smaller of two numbers.
pub open spec fn smaller(a: int, b: int) -> int {
    if a <= b {
        a
    } else {
        b
    }
}

/// The widths of the first `n` elements, added up.
pub open spec fn width_sum(elms: Seq<ElmView>, n: nat) -> int
    decreases n,
{
    if n == 0 || n > elms.len() {
        0
    } else {
        width_sum(elms, (n - 1) as nat) + elms[n - 1].rect().dim.width
    }
}

/// The heights of the first `n` elements, added up.
pub open spec fn height_sum(elms: Seq<ElmView>, n: nat) -> int
    decreases n,
{
    if n == 0 || n > elms.len() {
        0
    } else {
        height_sum(elms, (n - 1) as nat) + elms[n - 1].rect().dim.height
    }
}

/// The largest width among the first `n` elements.
pub open spec fn width_max(elms: Seq<ElmView>, n: nat) -> int
    decreases n,
{
    if n == 0 || n > elms.len() {
        0
    } else {
        larger(width_max(elms, (n - 1) as nat), elms[n - 1].rect().dim.width as int)
    }
}

/// The largest height among the first `n` elements.
pub open spec fn height_max(elms: Seq<ElmView>, n: nat) -> int
    decreases n,
{
    if n == 0 || n > elms.len() {
        0
    } else {
        larger(height_max(elms, (n - 1) as nat), elms[n - 1].rect().dim.height as int)
    }
}

/// The padding along a flow of `len` elements: the outer padding on both
/// ends, and the inner padding between neighbours.
pub open spec fn pad_sum(len: nat, flow: FlowAtts) -> int {
    flow.inter_pad * 2 + (if len == 0 {
        0
    } else {
        (len - 1) * flow.intra_pad
    })
}

/// The flow runs from side to side.
pub open spec fn horizontal(dir: Dir2D) -> bool {
    dir == Dir2D::Left || dir == Dir2D::Right
}

/// Width and height of a flow: along the flow the sizes add up with the
/// padding; across it the largest size counts, with the outer padding on
/// both sides.
pub open spec fn flow_dim(elms: Seq<ElmView>, flow: FlowAtts) -> (int, int) {
    let n = elms.len();
    if horizontal(flow.dir) {
        (width_sum(elms, n) + pad_sum(n, flow), height_max(elms, n) + 2 * flow.inter_pad)
    } else {
        (width_max(elms, n) + 2 * flow.inter_pad, height_sum(elms, n) + pad_sum(n, flow))
    }
}

/// The size of the flow can be computed in machine numbers.
pub open spec fn flow_fits(elms: Seq<ElmView>, flow: FlowAtts) -> bool {
    &&& flow_dim(elms, flow).0 <= usize::MAX
    &&& flow_dim(elms, flow).1 <= usize::MAX
    &&& pad_sum(elms.len(), flow) <= usize::MAX
}

/// The rectangle that the first `n` elements are gathered into, as corner
/// `(x, y)`, width and height. It starts from the farthest corner with no
/// extent; each element moves the corner back to its own where that is
/// nearer, and stretches the extent to reach its far edge from the corner as
/// it then stands.
pub open spec fn bound(elms: Seq<ElmView>, n: nat) -> (int, int, int, int)
    decreases n,
{
    if n == 0 || n > elms.len() {
        (isize::MAX as int, isize::MAX as int, 0, 0)
    } else {
        let b = bound(elms, (n - 1) as nat);
        let r = elms[n - 1].rect();
        let x = smaller(b.0, r.pos.x as int);
        let y = smaller(b.1, r.pos.y as int);
        (x, y, larger(b.2, r.pos.x + r.dim.width - x), larger(b.3, r.pos.y + r.dim.height - y))
    }
}

/// The rectangle of the first `n` elements can be computed in machine
/// numbers.
pub open spec fn bound_fits(elms: Seq<ElmView>, n: nat) -> bool
    decreases n,
{
    if n == 0 || n > elms.len() {
        true
    } else {
        let b = bound(elms, (n - 1) as nat);
        let r = elms[n - 1].rect();
        &&& bound_fits(elms, (n - 1) as nat)
        &&& r.pos.x + r.dim.width <= isize::MAX
        &&& r.pos.y + r.dim.height <= isize::MAX
        &&& r.pos.x + r.dim.width - smaller(b.0, r.pos.x as int) <= isize::MAX
        &&& r.pos.y + r.dim.height - smaller(b.1, r.pos.y as int) <= isize::MAX
    }
}

/// Width and height of a frame. A free frame reaches from the origin to the
/// far edge of the rectangle of its elements; a flow is as large as
/// `flow_dim` says.
pub open spec fn frame_dim(f: FrameView) -> (int, int) {
    match f.typ {
        FrameType::Free => {
            let b = bound(f.elms, f.elms.len());
            (b.0 + b.2, b.1 + b.3)
        },
        FrameType::Flow(flow) => flow_dim(f.elms, flow),
    }
}

/// The element moved to `pos`.
pub open spec fn place(e: ElmView, pos: Pos) -> ElmView {
    match e {
        ElmView::Rect(r, f) => ElmView::Rect(Rect { pos, dim: r.dim }, f),
        ElmView::Node { name, rect, fill, children } => ElmView::Node {
            name,
            rect: Rect { pos, dim: rect.dim },
            fill,
            children,
        },
    }
}

/// Where the first element of a flow goes: inside the outer padding, and,
/// for a flow that runs leftward or upward, beyond the whole extent. The
/// padding and the extent are taken as machine coordinates, cut to size.
pub open spec fn flow_start(flow: FlowAtts, dim: Dim) -> (int, int) {
    let p = (flow.inter_pad as isize) as int;
    match flow.dir {
        Dir2D::Right => (p, p),
        Dir2D::Down => (p, p),
        Dir2D::Left => (p + (dim.width as isize), p),
        Dir2D::Up => (p, p + (dim.height as isize)),
    }
}

/// How far an element of extent `d` moves the place on: by its extent along
/// the flow and the inner padding, taken as a machine coordinate, cut to
/// size.
pub open spec fn flow_step(flow: FlowAtts, d: Dim) -> int {
    if horizontal(flow.dir) {
        (((d.width + flow.intra_pad) as usize) as isize) as int
    } else {
        (((d.height + flow.intra_pad) as usize) as isize) as int
    }
}

/// Where the element after the first `n` goes: each element moves the place
/// on by its step, in the direction of the flow.
pub open spec fn flow_pos(elms: Seq<ElmView>, flow: FlowAtts, start: (int, int), n: nat) -> (
    int,
    int,
)
    decreases n,
{
    if n == 0 || n > elms.len() {
        start
    } else {
        let prev = flow_pos(elms, flow, start, (n - 1) as nat);
        let step = flow_step(flow, elms[n - 1].rect().dim);
        match flow.dir {
            Dir2D::Right => (prev.0 + step, prev.1),
            Dir2D::Left => (prev.0 - step, prev.1),
            Dir2D::Down => (prev.0, prev.1 + step),
            Dir2D::Up => (prev.0, prev.1 - step),
        }
    }
}

/// A pair of numbers are machine coordinates.
pub open spec fn is_pos(p: (int, int)) -> bool {
    isize::MIN <= p.0 <= isize::MAX && isize::MIN <= p.1 <= isize::MAX
}

/// The places of the first `n` elements, and the place after them, can be
/// computed in machine numbers.
pub open spec fn place_fits(elms: Seq<ElmView>, flow: FlowAtts, start: (int, int), n: nat) -> bool
    decreases n,
{
    if n == 0 || n > elms.len() {
        is_pos(start)
    } else {
        let d = elms[n - 1].rect().dim;
        &&& place_fits(elms, flow, start, (n - 1) as nat)
        &&& is_pos(flow_pos(elms, flow, start, n))
        &&& (if horizontal(flow.dir) {
            d.width + flow.intra_pad
        } else {
            d.height + flow.intra_pad
        }) <= usize::MAX
    }
}

/// The elements of a flow, each moved to its place.
pub open spec fn placed(elms: Seq<ElmView>, flow: FlowAtts, start: (int, int)) -> Seq<ElmView> {
    Seq::new(
        elms.len(),
        |i: int|
            {
                let p = flow_pos(elms, flow, start, i as nat);
                place(elms[i], Pos { x: p.0 as isize, y: p.1 as isize })
            },
    )
}

/// The layout of the frame can be computed in machine numbers.
pub open spec fn frame_fits(f: FrameView) -> bool {
    match f.typ {
        FrameType::Free => {
            let b = bound(f.elms, f.elms.len());
            &&& bound_fits(f.elms, f.elms.len())
            &&& b.0 >= 0
            &&& b.1 >= 0
            &&& b.0 + b.2 <= usize::MAX
            &&& b.1 + b.3 <= usize::MAX
        },
        FrameType::Flow(flow) => {
            &&& flow_fits(f.elms, flow)
            &&& place_fits(f.elms, flow, flow_start(flow, frame_size(f)), f.elms.len())
        },
    }
}

/// Width and height of a frame as machine numbers.
pub open spec fn frame_size(f: FrameView) -> Dim {
    Dim { width: frame_dim(f).0 as usize, height: frame_dim(f).1 as usize }
}

/// The node that a closed frame becomes: as large as `frame_dim` says, with
/// the frame's name and fill. The elements of a free frame stay where they
/// are, and the node sits at the corner of their rectangle; the elements of
/// a flow are moved to their places, and the node sits at the origin.
pub open spec fn node_of(f: FrameView) -> ElmView {
    let rect_dim = frame_size(f);
    match f.typ {
        FrameType::Free => {
            let b = bound(f.elms, f.elms.len());
            ElmView::Node {
                name: f.name,
                rect: Rect { pos: Pos { x: b.0 as isize, y: b.1 as isize }, dim: rect_dim },
                fill: f.fill,
                children: f.elms,
            }
        },
        FrameType::Flow(flow) => ElmView::Node {
            name: f.name,
            rect: Rect { pos: Pos { x: 0, y: 0 }, dim: rect_dim },
            fill: f.fill,
            children: placed(f.elms, flow, flow_start(flow, rect_dim)),
        },
    }
}

// ---------------------------------------------------------------------------
// Lemmas

proof fn lemma_sums_grow(elms: Seq<ElmView>, i: nat, n: nat)
    requires
        i <= n <= elms.len(),
    ensures
        0 <= width_sum(elms, i) <= width_sum(elms, n),
        0 <= height_sum(elms, i) <= height_sum(elms, n),
        0 <= width_max(elms, i) <= width_max(elms, n),
        0 <= height_max(elms, i) <= height_max(elms, n),
    decreases n,
{
    if i < n {
        lemma_sums_grow(elms, i, (n - 1) as nat);
    } else if n > 0 {
        lemma_sums_grow(elms, (i - 1) as nat, (n - 1) as nat);
    }
}

proof fn lemma_bound_fits_before(elms: Seq<ElmView>, i: nat, n: nat)
    requires
        i <= n <= elms.len(),
        bound_fits(elms, n),
    ensures
        bound_fits(elms, i),
    decreases n,
{
    if i < n {
        lemma_bound_fits_before(elms, i, (n - 1) as nat);
    }
}

proof fn lemma_bound_range(elms: Seq<ElmView>, n: nat)
    requires
        n <= elms.len(),
        bound_fits(elms, n),
    ensures
        isize::MIN <= bound(elms, n).0 <= isize::MAX,
        isize::MIN <= bound(elms, n).1 <= isize::MAX,
        0 <= bound(elms, n).2 <= isize::MAX,
        0 <= bound(elms, n).3 <= isize::MAX,
    decreases n,
{
    if n > 0 {
        lemma_bound_range(elms, (n - 1) as nat);
    }
}

proof fn lemma_place_fits_before(elms: Seq<ElmView>, flow: FlowAtts, start: (int, int), i: nat, n: nat)
    requires
        i <= n <= elms.len(),
        place_fits(elms, flow, start, n),
    ensures
        place_fits(elms, flow, start, i),
        is_pos(flow_pos(elms, flow, start, i)),
    decreases n,
{
    if i < n {
        lemma_place_fits_before(elms, flow, start, i, (n - 1) as nat);
    }
}

// ---------------------------------------------------------------------------
// The computation

fn dim_of_elm(elm: &Elm) -> (dim: Dim)
    ensures
        dim == elm@.rect().dim,
{
    match elm {
        Elm::Node(node) => node.rect.dim,
        Elm::Rect(r, _) => r.dim,
    }
}

fn bounding_rect_of_elm(elm: &Elm) -> (r: Rect)
    ensures
        r == elm@.rect(),
{
    match elm {
        Elm::Node(node) => node.rect,
        Elm::Rect(r, _) => *r,
    }
}

/// Width and height of a flow of elements.
pub fn dim_of_flow(elms: &Elms, flow: &FlowAtts) -> (dim: Dim)
    requires
        flow_fits(elms_model(elms@), *flow),
    ensures
        (dim.width as int, dim.height as int) == flow_dim(elms_model(elms@), *flow),
{
    let ghost es = elms_model(elms@);
    let ghost n = es.len();
    proof {
        lemma_sums_grow(es, n, n);
    }
    let mut width: usize = 0;
    let mut height: usize = 0;
    let intra_pad_sum = flow.inter_pad * 2 + if elms.len() == 0 {
        0
    } else {
        (elms.len() - 1) * flow.intra_pad
    };
    match flow.dir {
        Dir2D::Left | Dir2D::Right => {
            let mut i: usize = 0;
            while i < elms.len()
                invariant
                    es == elms_model(elms@),
                    n == es.len(),
                    n == elms@.len(),
                    i <= elms.len(),
                    width_sum(es, n) <= usize::MAX,
                    height_max(es, n) <= usize::MAX,
                    width == width_sum(es, i as nat),
                    height == height_max(es, i as nat),
                decreases elms.len() - i,
            {
                proof {
                    lemma_sums_grow(es, (i + 1) as nat, n);
                }
                let dim = dim_of_elm(&elms[i]);
                width += dim.width;
                height = if height >= dim.height {
                    height
                } else {
                    dim.height
                };
                i += 1;
            }
            width += intra_pad_sum;
            height += 2 * flow.inter_pad;
        },
        Dir2D::Up | Dir2D::Down => {
            let mut i: usize = 0;
            while i < elms.len()
                invariant
                    es == elms_model(elms@),
                    n == es.len(),
                    n == elms@.len(),
                    i <= elms.len(),
                    height_sum(es, n) <= usize::MAX,
                    width_max(es, n) <= usize::MAX,
                    height == height_sum(es, i as nat),
                    width == width_max(es, i as nat),
                decreases elms.len() - i,
            {
                proof {
                    lemma_sums_grow(es, (i + 1) as nat, n);
                }
                let dim = dim_of_elm(&elms[i]);
                height += dim.height;
                width = if width >= dim.width {
                    width
                } else {
                    dim.width
                };
                i += 1;
            }
            height += intra_pad_sum;
            width += 2 * flow.inter_pad;
        },
    }
    Dim { width, height }
}

/// The rectangle that the elements are gathered into.
pub fn bounding_rect_of_elms(elms: &Elms) -> (r: Rect)
    requires
        bound_fits(elms_model(elms@), elms@.len() as nat),
    ensures
        (r.pos.x as int, r.pos.y as int, r.dim.width as int, r.dim.height as int) == bound(
            elms_model(elms@),
            elms@.len() as nat,
        ),
{
    let ghost es = elms_model(elms@);
    let ghost n = es.len();
    let mut bound = Rect::new(isize::MAX, isize::MAX, 0, 0);
    let mut i: usize = 0;
    while i < elms.len()
        invariant
            es == elms_model(elms@),
            n == es.len(),
            n == elms@.len(),
            bound_fits(es, n),
            i <= elms.len(),
            (bound.pos.x as int, bound.pos.y as int, bound.dim.width as int, bound.dim.height as int)
                == self::bound(es, i as nat),
            bound.dim.width <= isize::MAX,
            bound.dim.height <= isize::MAX,
        decreases elms.len() - i,
    {
        proof {
            lemma_bound_fits_before(es, (i + 1) as nat, n);
            lemma_bound_range(es, (i + 1) as nat);
        }
        let rect = bounding_rect_of_elm(&elms[i]);
        bound.pos.x = if bound.pos.x <= rect.pos.x {
            bound.pos.x
        } else {
            rect.pos.x
        };
        bound.pos.y = if bound.pos.y <= rect.pos.y {
            bound.pos.y
        } else {
            rect.pos.y
        };
        let w = ((rect.pos.x + rect.dim.width as isize) - bound.pos.x) as usize;
        let h = ((rect.pos.y + rect.dim.height as isize) - bound.pos.y) as usize;
        bound.dim.width = if bound.dim.width >= w {
            bound.dim.width
        } else {
            w
        };
        bound.dim.height = if bound.dim.height >= h {
            bound.dim.height
        } else {
            h
        };
        i += 1;
    }
    bound
}

/// Width and height of a frame.
pub fn dim_of_frame(frame: &Frame) -> (dim: Dim)
    requires
        frame_fits(frame@),
    ensures
        (dim.width as int, dim.height as int) == frame_dim(frame@),
{
    match frame.typ {
        FrameType::Free => {
            let rect = bounding_rect_of_elms(&frame.elms);
            Dim {
                width: (rect.pos.x as usize) + rect.dim.width,
                height: (rect.pos.y as usize) + rect.dim.height,
            }
        },
        FrameType::Flow(ref flow) => dim_of_flow(&frame.elms, flow),
    }
}

/// The rectangle at another place.
pub fn reposition_rect(rect: &Rect, pos: Pos) -> (r: Rect)
    ensures
        r == (Rect { pos, dim: rect.dim }),
{
    Rect { pos, dim: rect.dim }
}

/// The element at another place.
pub fn reposition_elm(elm: &Elm, pos: Pos) -> (r: Elm)
    ensures
        r@ == place(elm@, pos),
{
    match elm {
        Elm::Rect(r, f) => Elm::Rect(reposition_rect(r, pos), *f),
        Elm::Node(node) => Elm::Node(
            Box::new(
                Node {
                    name: node.name.clone(),
                    rect: reposition_rect(&node.rect, pos),
                    fill: node.fill,
                    children: clone_elms(&node.children),
                },
            ),
        ),
    }
}

/// The elements of a frame at their places, and the rectangle of the frame.
pub fn reposition_frame_elms(frame: &Frame) -> (r: (Elms, Rect))
    requires
        frame_fits(frame@),
    ensures
        node_of(frame@) matches ElmView::Node { rect, children, .. } && rect == r.1 && children
            == elms_model(r.0@),
{
    let dim = dim_of_frame(frame);
    match frame.typ {
        FrameType::Free => {
            let elms_out = clone_elms(&frame.elms);
            let rect = bounding_rect_of_elms(&frame.elms);
            (elms_out, Rect { pos: rect.pos, dim })
        },
        FrameType::Flow(flow) => {
            let ghost es = elms_model(frame.elms@);
            let ghost n = es.len();
            let ghost start = flow_start(flow, dim);
            proof {
                lemma_place_fits_before(es, flow, start, 0, n);
            }
            let p = #[verifier::truncate]
            (flow.inter_pad as isize);
            let mut next_pos = match flow.dir {
                Dir2D::Right => Pos { x: p, y: p },
                Dir2D::Down => Pos { x: p, y: p },
                Dir2D::Left => Pos {
                    x: p + (#[verifier::truncate]
                    (dim.width as isize)),
                    y: p,
                },
                Dir2D::Up => Pos {
                    x: p,
                    y: p + (#[verifier::truncate]
                    (dim.height as isize)),
                },
            };
            let mut elms_out: Vec<Elm> = Vec::new();
            let mut i: usize = 0;
            while i < frame.elms.len()
                invariant
                    es == elms_model(frame.elms@),
                    n == es.len(),
                    n == frame.elms@.len(),
                    place_fits(es, flow, start, n),
                    i <= frame.elms.len(),
                    (next_pos.x as int, next_pos.y as int) == flow_pos(es, flow, start, i as nat),
                    elms_out.len() == i,
                    forall|k: int|
                        0 <= k < i ==> elms_out@[k]@ == (#[trigger] placed(es, flow, start)[k]),
                decreases frame.elms.len() - i,
            {
                proof {
                    lemma_place_fits_before(es, flow, start, (i + 1) as nat, n);
                }
                let elm = &frame.elms[i];
                elms_out.push(reposition_elm(elm, next_pos));
                let dim = dim_of_elm(elm);
                match flow.dir {
                    Dir2D::Right => {
                        next_pos.x = next_pos.x + (#[verifier::truncate]
                        ((dim.width + flow.intra_pad) as isize));
                    },
                    Dir2D::Left => {
                        next_pos.x = next_pos.x - (#[verifier::truncate]
                        ((dim.width + flow.intra_pad) as isize));
                    },
                    Dir2D::Down => {
                        next_pos.y = next_pos.y + (#[verifier::truncate]
                        ((dim.height + flow.intra_pad) as isize));
                    },
                    Dir2D::Up => {
                        next_pos.y = next_pos.y - (#[verifier::truncate]
                        ((dim.height + flow.intra_pad) as isize));
                    },
                }
                i += 1;
            }
            assert(elms_model(elms_out@) =~= placed(es, flow, start));
            (elms_out, Rect { pos: Pos { x: 0, y: 0 }, dim })
        },
    }
}

/// The node that a closed frame becomes.
pub fn elm_of_frame(frame: Frame) -> (elm: Elm)
    requires
        frame_fits(frame@),
    ensures
        elm@ == node_of(frame@),
{
    let (elms, rect) = reposition_frame_elms(&frame);
    Elm::Node(Box::new(Node { name: frame.name, rect, fill: frame.fill, children: elms }))
}

// ---------------------------------------------------------------------------
// Asking first

proof fn lemma_mul_bound(a: int, b: int, k: int)
    requires
        a >= 0,
        b > 0,
        k >= 0,
    ensures
        (a * b <= k) == (a <= k / b),
{
    assert((a * b <= k) == (a <= k / b)) by (nonlinear_arith)
        requires
            a >= 0,
            b > 0,
            k >= 0,
    ;
}

/// The padding along the flow, where it fits a machine number.
fn pad_sum_checked(len: usize, flow: &FlowAtts) -> (r: Option<usize>)
    ensures
        match r {
            Some(p) => p == pad_sum(len as nat, *flow),
            None => pad_sum(len as nat, *flow) > usize::MAX,
        },
{
    if flow.inter_pad > usize::MAX / 2 {
        return None;
    }
    let outer = flow.inter_pad * 2;
    if len == 0 {
        return Some(outer);
    }
    if flow.intra_pad == 0 {
        assert((len - 1) * flow.intra_pad == 0) by (nonlinear_arith)
            requires
                flow.intra_pad == 0,
        ;
        return Some(outer);
    }
    let room = usize::MAX - outer;
    proof {
        lemma_mul_bound((len - 1) as int, flow.intra_pad as int, room as int);
    }
    if len - 1 > room / flow.intra_pad {
        return None;
    }
    Some(outer + (len - 1) * flow.intra_pad)
}

/// Whether the size of the flow can be computed in machine numbers.
pub fn flow_does_fit(elms: &Elms, flow: &FlowAtts) -> (r: bool)
    ensures
        r == flow_fits(elms_model(elms@), *flow),
{
    let ghost es = elms_model(elms@);
    let ghost n = es.len();
    let pad = match pad_sum_checked(elms.len(), flow) {
        Some(p) => p,
        None => {
            return false;
        },
    };
    assert(2 * flow.inter_pad <= pad) by (nonlinear_arith)
        requires
            pad == pad_sum(n, *flow),
            n == elms@.len(),
    {
        if n > 0 {
            assert((n - 1) * flow.intra_pad >= 0);
        }
    }
    let along_width = match flow.dir {
        Dir2D::Left | Dir2D::Right => true,
        _ => false,
    };
    let mut sum: usize = 0;
    let mut most: usize = 0;
    let mut i: usize = 0;
    while i < elms.len()
        invariant
            es == elms_model(elms@),
            n == es.len(),
            n == elms@.len(),
            along_width == horizontal(flow.dir),
            i <= elms.len(),
            sum == (if along_width {
                width_sum(es, i as nat)
            } else {
                height_sum(es, i as nat)
            }),
            most == (if along_width {
                height_max(es, i as nat)
            } else {
                width_max(es, i as nat)
            }),
        decreases elms.len() - i,
    {
        let dim = dim_of_elm(&elms[i]);
        let (step, other) = if along_width {
            (dim.width, dim.height)
        } else {
            (dim.height, dim.width)
        };
        if step > usize::MAX - sum {
            proof {
                lemma_sums_grow(es, (i + 1) as nat, n);
            }
            return false;
        }
        sum += step;
        most = if most >= other {
            most
        } else {
            other
        };
        i += 1;
    }
    pad <= usize::MAX - sum && 2 * flow.inter_pad <= usize::MAX - most
}

/// Whether the rectangle of the elements can be computed in machine numbers.
pub fn bound_does_fit(elms: &Elms) -> (r: bool)
    ensures
        r == bound_fits(elms_model(elms@), elms@.len() as nat),
{
    let ghost es = elms_model(elms@);
    let ghost n = es.len();
    let mut x: isize = isize::MAX;
    let mut y: isize = isize::MAX;
    let mut w: usize = 0;
    let mut h: usize = 0;
    let mut i: usize = 0;
    while i < elms.len()
        invariant
            es == elms_model(elms@),
            n == es.len(),
            n == elms@.len(),
            i <= elms.len(),
            bound_fits(es, i as nat),
            (x as int, y as int, w as int, h as int) == bound(es, i as nat),
            w <= isize::MAX,
            h <= isize::MAX,
        decreases elms.len() - i,
    {
        let rect = bounding_rect_of_elm(&elms[i]);
        let nx = if x <= rect.pos.x {
            x
        } else {
            rect.pos.x
        };
        let ny = if y <= rect.pos.y {
            y
        } else {
            rect.pos.y
        };
        let fits = rect.dim.width <= isize::MAX as usize && rect.dim.height <= isize::MAX as usize
            && rect.pos.x as i128 + rect.dim.width as i128 - nx as i128 <= isize::MAX as i128
            && rect.pos.y as i128 + rect.dim.height as i128 - ny as i128 <= isize::MAX as i128
            && rect.pos.x as i128 + rect.dim.width as i128 <= isize::MAX as i128 && rect.pos.y as i128
            + rect.dim.height as i128 <= isize::MAX as i128;
        if !fits {
            proof {
                if bound_fits(es, n) {
                    lemma_bound_fits_before(es, (i + 1) as nat, n);
                }
            }
            return false;
        }
        let rw = ((rect.pos.x + rect.dim.width as isize) - nx) as usize;
        let rh = ((rect.pos.y + rect.dim.height as isize) - ny) as usize;
        x = nx;
        y = ny;
        w = if w >= rw {
            w
        } else {
            rw
        };
        h = if h >= rh {
            h
        } else {
            rh
        };
        i += 1;
    }
    true
}

/// Whether the places of a flow can be computed in machine numbers.
fn place_does_fit(elms: &Elms, flow: &FlowAtts, dim: Dim) -> (r: bool)
    ensures
        r == place_fits(elms_model(elms@), *flow, flow_start(*flow, dim), elms@.len() as nat),
{
    let ghost es = elms_model(elms@);
    let ghost n = es.len();
    let ghost start = flow_start(*flow, dim);
    let p = (#[verifier::truncate]
    (flow.inter_pad as isize)) as i128;
    let mut x: i128 = match flow.dir {
        Dir2D::Left => p + (#[verifier::truncate]
        (dim.width as isize)) as i128,
        _ => p,
    };
    let mut y: i128 = match flow.dir {
        Dir2D::Up => p + (#[verifier::truncate]
        (dim.height as isize)) as i128,
        _ => p,
    };
    if x > isize::MAX as i128 || y > isize::MAX as i128 || x < isize::MIN as i128 || y
        < isize::MIN as i128 {
        proof {
            if place_fits(es, *flow, start, n) {
                lemma_place_fits_before(es, *flow, start, 0, n);
            }
        }
        return false;
    }
    let mut i: usize = 0;
    while i < elms.len()
        invariant
            es == elms_model(elms@),
            n == es.len(),
            n == elms@.len(),
            start == flow_start(*flow, dim),
            i <= elms.len(),
            place_fits(es, *flow, start, i as nat),
            (x as int, y as int) == flow_pos(es, *flow, start, i as nat),
            is_pos((x as int, y as int)),
        decreases elms.len() - i,
    {
        let d = dim_of_elm(&elms[i]);
        let extent = match flow.dir {
            Dir2D::Left | Dir2D::Right => d.width,
            _ => d.height,
        };
        if extent > usize::MAX - flow.intra_pad {
            proof {
                if place_fits(es, *flow, start, n) {
                    lemma_place_fits_before(es, *flow, start, (i + 1) as nat, n);
                }
            }
            return false;
        }
        let step: i128 = (#[verifier::truncate]
        ((extent + flow.intra_pad) as isize)) as i128;
        let (nx, ny) = match flow.dir {
            Dir2D::Right => (x + step, y),
            Dir2D::Left => (x - step, y),
            Dir2D::Down => (x, y + step),
            Dir2D::Up => (x, y - step),
        };
        let fits = isize::MIN as i128 <= nx && nx <= isize::MAX as i128 && isize::MIN as i128 <= ny
            && ny <= isize::MAX as i128;
        if !fits {
            proof {
                if place_fits(es, *flow, start, n) {
                    lemma_place_fits_before(es, *flow, start, (i + 1) as nat, n);
                }
            }
            return false;
        }
        x = nx;
        y = ny;
        i += 1;
    }
    true
}

/// Whether the layout of the frame can be computed in machine numbers.
pub fn frame_does_fit(frame: &Frame) -> (r: bool)
    ensures
        r == frame_fits(frame@),
{
    match frame.typ {
        FrameType::Free => {
            if !bound_does_fit(&frame.elms) {
                return false;
            }
            proof {
                lemma_bound_range(elms_model(frame.elms@), frame.elms@.len() as nat);
            }
            let rect = bounding_rect_of_elms(&frame.elms);
            rect.pos.x >= 0 && rect.pos.y >= 0 && rect.dim.width <= usize::MAX - rect.pos.x as usize
                && rect.dim.height <= usize::MAX - rect.pos.y as usize
        },
        FrameType::Flow(flow) => {
            if !flow_does_fit(&frame.elms, &flow) {
                return false;
            }
            let dim = dim_of_flow(&frame.elms, &flow);
            place_does_fit(&frame.elms, &flow, dim)
        },
    }
}

} // verus!
