//! Free-space bookkeeping for item slots on the plane: a list of free rectangles from which
//! rectangular slots are carved.

use std::collections::VecDeque;
use vstd::prelude::*;

verus! {

/// An axis-aligned rectangle of blocks: columns `x .. x + width`, rows `y .. y + height`.
#[derive(Debug, Clone, Copy, PartialEq, Eq, Structural)]
pub struct Rectangle {
    pub x: usize,
    pub y: usize,
    pub width: usize,
    pub height: usize,
}

impl Rectangle {
    /// Its far edges fit in a `usize`.
    pub open spec fn wf(self) -> bool {
        self.x + self.width <= usize::MAX && self.y + self.height <= usize::MAX
    }

    pub open spec fn contains(self, px: int, py: int) -> bool {
        self.x <= px < self.x + self.width && self.y <= py < self.y + self.height
    }

    pub open spec fn is_empty(self) -> bool {
        self.width == 0 || self.height == 0
    }

    pub open spec fn area(self) -> nat {
        (self.width * self.height) as nat
    }
}

pub open spec fn max(a: int, b: int) -> int {
    if a >= b {
        a
    } else {
        b
    }
}

pub open spec fn min(a: int, b: int) -> int {
    if a <= b {
        a
    } else {
        b
    }
}

/// The two rectangles share at least one block.
pub open spec fn overlaps(a: Rectangle, b: Rectangle) -> bool {
    &&& max(a.x as int, b.x as int) < min(a.x + a.width, b.x + b.width)
    &&& max(a.y as int, b.y as int) < min(a.y + a.height, b.y + b.height)
}

/// Some rectangle of `rs` contains the block (`px`, `py`).
pub open spec fn covered(rs: Seq<Rectangle>, px: int, py: int) -> bool {
    exists|i: int| 0 <= i < rs.len() && (#[trigger] rs[i]).contains(px, py)
}

/// Every block of `r` is contained in some rectangle of `rs`.
pub open spec fn covers(rs: Seq<Rectangle>, r: Rectangle) -> bool {
    forall|px: int, py: int| #[trigger] r.contains(px, py) ==> covered(rs, px, py)
}

/// The summed areas of the rectangles of `rs`.
pub open spec fn total_area(rs: Seq<Rectangle>) -> nat
    decreases rs.len(),
{
    if rs.len() == 0 {
        0
    } else {
        total_area(rs.drop_last()) + rs.last().area()
    }
}

/// `inner` lies within `outer`.
pub open spec fn within(inner: Rectangle, outer: Rectangle) -> bool {
    &&& outer.x <= inner.x
    &&& inner.x + inner.width <= outer.x + outer.width
    &&& outer.y <= inner.y
    &&& inner.y + inner.height <= outer.y + outer.height
}

proof fn lemma_total_area_push(rs: Seq<Rectangle>, r: Rectangle)
    ensures
        total_area(rs.push(r)) == total_area(rs) + r.area(),
{
    assert(rs.push(r).drop_last() =~= rs);
}

proof fn lemma_total_area_first(rs: Seq<Rectangle>)
    requires
        rs.len() > 0,
    ensures
        total_area(rs) == rs[0].area() + total_area(rs.drop_first()),
    decreases rs.len(),
{
    if rs.len() > 1 {
        lemma_total_area_first(rs.drop_last());
        assert(rs.drop_last().drop_first() =~= rs.drop_first().drop_last());
    } else {
        assert(rs.drop_first() =~= Seq::<Rectangle>::empty());
        assert(rs.drop_last() =~= Seq::<Rectangle>::empty());
    }
}

proof fn lemma_covered_first(rs: Seq<Rectangle>)
    requires
        rs.len() > 0,
    ensures
        forall|px: int, py: int|
            covered(rs, px, py) <==> rs[0].contains(px, py) || covered(rs.drop_first(), px, py),
{
    assert forall|px: int, py: int|
        covered(rs, px, py) <==> rs[0].contains(px, py) || covered(rs.drop_first(), px, py) by {
        if covered(rs, px, py) {
            let i = choose|i: int| 0 <= i < rs.len() && (#[trigger] rs[i]).contains(px, py);
            if i > 0 {
                assert(rs.drop_first()[i - 1] == rs[i]);
            }
        }
        if covered(rs.drop_first(), px, py) {
            let i = choose|i: int|
                0 <= i < rs.drop_first().len() && (#[trigger] rs.drop_first()[i]).contains(px, py);
            assert(rs[i + 1] == rs.drop_first()[i]);
        }
        if rs[0].contains(px, py) {
            assert(rs[0].contains(px, py));
        }
    }
}

proof fn lemma_covered_push(rs: Seq<Rectangle>, r: Rectangle)
    ensures
        forall|px: int, py: int|
            covered(rs.push(r), px, py) <==> covered(rs, px, py) || r.contains(px, py),
{
    assert forall|px: int, py: int|
        covered(rs.push(r), px, py) <==> covered(rs, px, py) || r.contains(px, py) by {
        if covered(rs.push(r), px, py) {
            let i = choose|i: int|
                0 <= i < rs.push(r).len() && (#[trigger] rs.push(r)[i]).contains(px, py);
            if i < rs.len() {
                assert(rs[i] == rs.push(r)[i]);
            }
        }
        if covered(rs, px, py) {
            let i = choose|i: int| 0 <= i < rs.len() && (#[trigger] rs[i]).contains(px, py);
            assert(rs.push(r)[i] == rs[i]);
        }
        if r.contains(px, py) {
            assert(rs.push(r)[rs.len() as int] == r);
        }
    }
}

/// The blocks that `a` and `b` share, as a rectangle, if they share any.
pub fn get_overlap(a: &Rectangle, b: &Rectangle) -> (r: Option<Rectangle>)
    requires
        a.wf(),
        b.wf(),
    ensures
        r is Some <==> overlaps(*a, *b),
        r matches Some(o) ==> o.wf() && !o.is_empty() && within(o, *a) && within(o, *b)
            && forall|px: int, py: int|
            #[trigger] o.contains(px, py) <==> a.contains(px, py) && b.contains(px, py),
{
    let x1 = if a.x >= b.x {
        a.x
    } else {
        b.x
    };
    let y1 = if a.y >= b.y {
        a.y
    } else {
        b.y
    };
    let ar = a.x + a.width;
    let br = b.x + b.width;
    let ab = a.y + a.height;
    let bb = b.y + b.height;
    let x2 = if ar <= br {
        ar
    } else {
        br
    };
    let y2 = if ab <= bb {
        ab
    } else {
        bb
    };
    if x1 < x2 && y1 < y2 {
        Some(Rectangle { x: x1, y: y1, width: x2 - x1, height: y2 - y1 })
    } else {
        None
    }
}

pub open spec fn piece_if(present: bool, r: Rectangle) -> Seq<Rectangle> {
    if present {
        seq![r]
    } else {
        Seq::empty()
    }
}

/// The pieces of `rect` around an overlapping `sub`: the band above, the band below, and the
/// pieces left and right between the bands, each where it is not empty.
pub open spec fn band_pieces(rect: Rectangle, sub: Rectangle) -> Seq<Rectangle> {
    let rect_right = rect.x + rect.width;
    let rect_bottom = rect.y + rect.height;
    let sub_right = sub.x + sub.width;
    let sub_bottom = sub.y + sub.height;
    let top = max(sub.y as int, rect.y as int);
    let bottom = min(sub_bottom, rect_bottom);
    piece_if(
        sub.y > rect.y,
        Rectangle { x: rect.x, y: rect.y, width: rect.width, height: (sub.y - rect.y) as usize },
    ) + piece_if(
        sub_bottom < rect_bottom,
        Rectangle {
            x: rect.x,
            y: sub_bottom as usize,
            width: rect.width,
            height: (rect_bottom - sub_bottom) as usize,
        },
    ) + piece_if(
        sub.x > rect.x,
        Rectangle {
            x: rect.x,
            y: top as usize,
            width: (sub.x - rect.x) as usize,
            height: (bottom - top) as usize,
        },
    ) + piece_if(
        sub_right < rect_right,
        Rectangle {
            x: sub_right as usize,
            y: top as usize,
            width: (rect_right - sub_right) as usize,
            height: (bottom - top) as usize,
        },
    )
}

/// What subtracting `sub` from `rect` leaves, as a list of rectangles.
pub open spec fn subtract_spec(rect: Rectangle, sub: Rectangle) -> Seq<Rectangle> {
    if overlaps(rect, sub) {
        band_pieces(rect, sub)
    } else {
        piece_if(!rect.is_empty(), rect)
    }
}

/// No block lies in two rectangles of `rs`.
pub open spec fn disjoint_all(rs: Seq<Rectangle>) -> bool {
    forall|i: int, j: int, px: int, py: int|
        0 <= i < rs.len() && 0 <= j < rs.len() && i != j && #[trigger] rs[i].contains(px, py)
            ==> !#[trigger] rs[j].contains(px, py)
}

proof fn lemma_disjoint_push(rs: Seq<Rectangle>, r: Rectangle)
    requires
        disjoint_all(rs),
        forall|px: int, py: int| #[trigger] r.contains(px, py) ==> !covered(rs, px, py),
    ensures
        disjoint_all(rs.push(r)),
{
    assert forall|i: int, j: int, px: int, py: int|
        0 <= i < rs.push(r).len() && 0 <= j < rs.push(r).len() && i != j
            && #[trigger] rs.push(r)[i].contains(px, py) implies !#[trigger] rs.push(r)[j].contains(
        px,
        py,
    ) by {
        if i == rs.len() {
            assert(rs.push(r)[j] == rs[j]);
            if rs[j].contains(px, py) {
                assert(covered(rs, px, py));
            }
        } else if j == rs.len() {
            assert(rs.push(r)[i] == rs[i]);
            assert(covered(rs, px, py));
        } else {
            assert(rs.push(r)[i] == rs[i]);
            assert(rs.push(r)[j] == rs[j]);
        }
    }
}

/// The four pieces left when `sub` is cut out of `rect` add up to the area of `rect` less
/// that of `sub`.
proof fn lemma_subtracted_area(rect: Rectangle, sub: Rectangle)
    requires
        within(sub, rect),
    ensures
        rect.width * (sub.y - rect.y) + rect.width * (rect.y + rect.height - (sub.y + sub.height))
            + (sub.x - rect.x) * sub.height + (rect.x + rect.width - (sub.x + sub.width))
            * sub.height + sub.width * sub.height == rect.width * rect.height,
{
    assert(rect.width * (sub.y - rect.y) + rect.width * (rect.y + rect.height - (sub.y
        + sub.height)) == rect.width * (rect.height - sub.height)) by (nonlinear_arith);
    assert((sub.x - rect.x) * sub.height + (rect.x + rect.width - (sub.x + sub.width))
        * sub.height == (rect.width - sub.width) * sub.height) by (nonlinear_arith);
    assert(rect.width * (rect.height - sub.height) + (rect.width - sub.width) * sub.height
        + sub.width * sub.height == rect.width * rect.height) by (nonlinear_arith);
}

/// The blocks of `rect` outside `sub`, where the two overlap, as the bands above and below
/// `sub` across the whole width of `rect` and the pieces left and right of `sub` between them.
fn cut_out(rect: &Rectangle, sub: &Rectangle) -> (r: Vec<Rectangle>)
    requires
        rect.wf(),
        sub.wf(),
        overlaps(*rect, *sub),
    ensures
        r@ == band_pieces(*rect, *sub),
        disjoint_all(r@),
        forall|i: int| 0 <= i < r@.len() ==> (#[trigger] r@[i]).wf() && !r@[i].is_empty(),
        forall|px: int, py: int|
            covered(r@, px, py) <==> rect.contains(px, py) && !sub.contains(px, py),
        within(*sub, *rect) ==> total_area(r@) + sub.area() == rect.area(),
{
    let mut result: Vec<Rectangle> = Vec::new();
    let rect_right = rect.x + rect.width;
    let rect_bottom = rect.y + rect.height;
    let sub_right = sub.x + sub.width;
    let sub_bottom = sub.y + sub.height;
    let top = if sub.y >= rect.y {
        sub.y
    } else {
        rect.y
    };
    let bottom = if sub_bottom <= rect_bottom {
        sub_bottom
    } else {
        rect_bottom
    };
    // Above `sub`.
    if sub.y > rect.y {
        let piece = Rectangle { x: rect.x, y: rect.y, width: rect.width, height: sub.y - rect.y };
        proof {
            lemma_disjoint_push(result@, piece);
            lemma_covered_push(result@, piece);
            lemma_total_area_push(result@, piece);
        }
        result.push(piece);
    }
    assert(within(*sub, *rect) ==> total_area(result@) == rect.width * (sub.y - rect.y)) by {
        if within(*sub, *rect) && sub.y == rect.y {
            assert(rect.width * (sub.y - rect.y) == 0) by (nonlinear_arith)
                requires
                    sub.y == rect.y,
            ;
        }
    }
    assert forall|px: int, py: int|
        covered(result@, px, py) <==> rect.contains(px, py) && py < sub.y by {
        if sub.y > rect.y {
            assert(result@.len() == 1);
            assert(covered(result@, px, py) <==> result@[0].contains(px, py));
        } else {
            assert(result@.len() == 0);
            assert(!covered(result@, px, py));
        }
    }
    let ghost stage1 = result@;
    assert(stage1 =~= piece_if(
        sub.y > rect.y,
        Rectangle { x: rect.x, y: rect.y, width: rect.width, height: (sub.y - rect.y) as usize },
    ));
    // Below `sub`.
    if sub_bottom < rect_bottom {
        let piece = Rectangle {
            x: rect.x,
            y: sub_bottom,
            width: rect.width,
            height: rect_bottom - sub_bottom,
        };
        proof {
            lemma_disjoint_push(result@, piece);
            lemma_covered_push(result@, piece);
            lemma_total_area_push(result@, piece);
        }
        result.push(piece);
    }
    assert forall|px: int, py: int|
        covered(result@, px, py) <==> rect.contains(px, py) && (py < sub.y || py >= sub_bottom) by {
    }
    assert(within(*sub, *rect) ==> total_area(result@) == rect.width * (sub.y - rect.y)
        + rect.width * (rect_bottom - sub_bottom)) by {
        if within(*sub, *rect) && sub_bottom == rect_bottom {
            assert(rect.width * (rect_bottom - sub_bottom) == 0) by (nonlinear_arith)
                requires
                    sub_bottom == rect_bottom,
            ;
        }
    }
    let ghost stage2 = result@;
    assert(stage2 =~= stage1 + piece_if(
        sub_bottom < rect_bottom,
        Rectangle {
            x: rect.x,
            y: sub_bottom,
            width: rect.width,
            height: (rect_bottom - sub_bottom) as usize,
        },
    ));
    // Left of `sub`, between the bands.
    if sub.x > rect.x {
        let piece = Rectangle { x: rect.x, y: top, width: sub.x - rect.x, height: bottom - top };
        proof {
            lemma_disjoint_push(result@, piece);
            lemma_covered_push(result@, piece);
            lemma_total_area_push(result@, piece);
        }
        result.push(piece);
    }
    assert forall|px: int, py: int|
        covered(result@, px, py) <==> rect.contains(px, py) && (py < sub.y || py >= sub_bottom
            || px < sub.x) by {
    }
    assert(within(*sub, *rect) ==> total_area(result@) == rect.width * (sub.y - rect.y)
        + rect.width * (rect_bottom - sub_bottom) + (sub.x - rect.x) * sub.height) by {
        if within(*sub, *rect) && sub.x == rect.x {
            assert((sub.x - rect.x) * sub.height == 0) by (nonlinear_arith)
                requires
                    sub.x == rect.x,
            ;
        }
    }
    let ghost stage3 = result@;
    assert(stage3 =~= stage2 + piece_if(
        sub.x > rect.x,
        Rectangle {
            x: rect.x,
            y: top,
            width: (sub.x - rect.x) as usize,
            height: (bottom - top) as usize,
        },
    ));
    // Right of `sub`, between the bands.
    if sub_right < rect_right {
        let piece = Rectangle {
            x: sub_right,
            y: top,
            width: rect_right - sub_right,
            height: bottom - top,
        };
        proof {
            lemma_disjoint_push(result@, piece);
            lemma_covered_push(result@, piece);
            lemma_total_area_push(result@, piece);
        }
        result.push(piece);
    }
    assert forall|px: int, py: int|
        covered(result@, px, py) <==> rect.contains(px, py) && !sub.contains(px, py) by {
    }
    assert(within(*sub, *rect) ==> total_area(result@) == rect.width * (sub.y - rect.y)
        + rect.width * (rect_bottom - sub_bottom) + (sub.x - rect.x) * sub.height + (rect_right
        - sub_right) * sub.height) by {
        if within(*sub, *rect) && sub_right == rect_right {
            assert((rect_right - sub_right) * sub.height == 0) by (nonlinear_arith)
                requires
                    sub_right == rect_right,
            ;
        }
    }
    assert(result@ =~= stage3 + piece_if(
        sub_right < rect_right,
        Rectangle {
            x: sub_right,
            y: top,
            width: (rect_right - sub_right) as usize,
            height: (bottom - top) as usize,
        },
    ));
    proof {
        if within(*sub, *rect) {
            lemma_subtracted_area(*rect, *sub);
        }
    }
    result
}

/// The blocks of `rect` outside `sub`, as at most four disjoint rectangles: the bands above
/// and below `sub` across the whole width of `rect`, and the pieces left and right of `sub`
/// between them. Where `sub` misses `rect`, that is `rect` itself (or nothing, if `rect` is
/// empty).
pub fn subtract_rect(rect: &Rectangle, sub: &Rectangle) -> (r: Vec<Rectangle>)
    requires
        rect.wf(),
        sub.wf(),
    ensures
        r@ == subtract_spec(*rect, *sub),
        r@.len() <= 4,
        disjoint_all(r@),
        forall|i: int| 0 <= i < r@.len() ==> (#[trigger] r@[i]).wf() && !r@[i].is_empty(),
        forall|px: int, py: int|
            covered(r@, px, py) <==> rect.contains(px, py) && !sub.contains(px, py),
        within(*sub, *rect) ==> total_area(r@) + sub.area() == rect.area(),
{
    if get_overlap(rect, sub).is_some() {
        cut_out(rect, sub)
    } else {
        let mut r: Vec<Rectangle> = Vec::new();
        if rect.width > 0 && rect.height > 0 {
            r.push(*rect);
        }
        proof {
            lemma_covered_push(Seq::<Rectangle>::empty(), *rect);
            if r@.len() == 1 {
                assert(total_area(r@) == total_area(r@.drop_last()) + rect.area());
                assert(r@.drop_last() =~= Seq::<Rectangle>::empty());
            }
            assert(within(*sub, *rect) ==> sub.is_empty());
            if within(*sub, *rect) {
                assert(sub.area() == 0) by (nonlinear_arith)
                    requires
                        sub.width == 0 || sub.height == 0,
                ;
                if rect.is_empty() {
                    assert(rect.area() == 0) by (nonlinear_arith)
                        requires
                            rect.width == 0 || rect.height == 0,
                    ;
                }
            }
        }
        r
    }
}


/// `r` is a non-empty rectangle whose every block is free in `free`.
pub open spec fn free_piece(free: Seq<Rectangle>, r: Rectangle) -> bool {
    !r.is_empty() && covers(free, r)
}

/// A `width` by `height` slot with its corner at (`px`, `py`) fits wholly in free space.
pub open spec fn fits(free: Seq<Rectangle>, px: int, py: int, width: usize, height: usize) -> bool {
    &&& 0 <= px
    &&& 0 <= py
    &&& px + width <= usize::MAX
    &&& py + height <= usize::MAX
    &&& free_piece(free, Rectangle { x: px as usize, y: py as usize, width, height })
}

/// (`x`, `y`) lies in free rectangle `fi`, and no position scanned before it fits a `width` by
/// `height` slot: none in an earlier free rectangle, and none earlier in rectangle `fi` when
/// its positions are taken column by column, each column from the top.
pub open spec fn first_fit(
    free: Seq<Rectangle>,
    fi: int,
    x: int,
    y: int,
    width: usize,
    height: usize,
) -> bool {
    &&& free[fi].contains(x, y)
    &&& forall|i: int, px: int, py: int|
        0 <= i < fi && #[trigger] free[i].contains(px, py) ==> !fits(free, px, py, width, height)
    &&& forall|px: int, py: int|
        px < x && #[trigger] free[fi].contains(px, py) ==> !fits(free, px, py, width, height)
    &&& forall|py: int|
        free[fi].y <= py < y ==> !#[trigger] fits(free, x, py, width, height)
}

/// Every rectangle of `rs` has far edges that fit in a `usize`.
pub open spec fn all_wf(rs: Seq<Rectangle>) -> bool {
    forall|i: int| 0 <= i < rs.len() ==> (#[trigger] rs[i]).wf()
}

proof fn lemma_covered_concat(a: Seq<Rectangle>, b: Seq<Rectangle>)
    ensures
        forall|px: int, py: int|
            covered(a + b, px, py) <==> covered(a, px, py) || covered(b, px, py),
{
    assert forall|px: int, py: int|
        covered(a + b, px, py) <==> covered(a, px, py) || covered(b, px, py) by {
        if covered(a + b, px, py) {
            let i = choose|i: int| 0 <= i < (a + b).len() && (#[trigger] (a + b)[i]).contains(px, py);
            if i < a.len() {
                assert(a[i] == (a + b)[i]);
            } else {
                assert(b[i - a.len()] == (a + b)[i]);
            }
        }
        if covered(a, px, py) {
            let i = choose|i: int| 0 <= i < a.len() && (#[trigger] a[i]).contains(px, py);
            assert((a + b)[i] == a[i]);
        }
        if covered(b, px, py) {
            let i = choose|i: int| 0 <= i < b.len() && (#[trigger] b[i]).contains(px, py);
            assert((a + b)[a.len() + i] == b[i]);
        }
    }
}

/// Appends the rectangles of `src` to `dst`, in order.
fn append_all(dst: &mut Vec<Rectangle>, src: &Vec<Rectangle>)
    requires
        all_wf(old(dst)@),
        all_wf(src@),
    ensures
        final(dst)@ == old(dst)@ + src@,
        all_wf(final(dst)@),
{
    let mut k: usize = 0;
    while k < src.len()
        invariant
            k <= src@.len(),
            all_wf(src@),
            dst@ == old(dst)@ + src@.subrange(0, k as int),
            all_wf(dst@),
        decreases src.len() - k,
    {
        proof {
            assert(src@[k as int].wf());
        }
        dst.push(src[k]);
        proof {
            assert(old(dst)@ + src@.subrange(0, k + 1) =~= (old(dst)@ + src@.subrange(
                0,
                k as int,
            )).push(src@[k as int]));
        }
        k = k + 1;
    }
    proof {
        assert(src@.subrange(0, k as int) =~= src@);
    }
}

/// `free` with `item` cut out of each of its rectangles, in order.
pub open spec fn cut_spec(free: Seq<Rectangle>, item: Rectangle) -> Seq<Rectangle>
    decreases free.len(),
{
    if free.len() == 0 {
        Seq::empty()
    } else {
        cut_spec(free.drop_last(), item) + subtract_spec(free.last(), item)
    }
}

proof fn lemma_disjoint_concat(a: Seq<Rectangle>, b: Seq<Rectangle>)
    requires
        disjoint_all(a),
        disjoint_all(b),
        forall|px: int, py: int| covered(b, px, py) ==> !covered(a, px, py),
    ensures
        disjoint_all(a + b),
{
    assert forall|i: int, j: int, px: int, py: int|
        0 <= i < (a + b).len() && 0 <= j < (a + b).len() && i != j && #[trigger] (a
            + b)[i].contains(px, py) implies !#[trigger] (a + b)[j].contains(px, py) by {
        if i < a.len() && j < a.len() {
            assert((a + b)[i] == a[i] && (a + b)[j] == a[j]);
        } else if i >= a.len() && j >= a.len() {
            assert((a + b)[i] == b[i - a.len()] && (a + b)[j] == b[j - a.len()]);
        } else if i < a.len() {
            assert((a + b)[i] == a[i] && (a + b)[j] == b[j - a.len()]);
            assert(covered(a, px, py));
            if b[j - a.len()].contains(px, py) {
                assert(covered(b, px, py));
            }
        } else {
            assert((a + b)[j] == a[j] && (a + b)[i] == b[i - a.len()]);
            assert(covered(b, px, py));
            if a[j].contains(px, py) {
                assert(covered(a, px, py));
            }
        }
    }
}

/// `free` with `item` cut out of every rectangle it meets: a rectangle that `item` misses is
/// kept, one that it meets is replaced by what is left of it around `item`.
pub fn cut(free: &Vec<Rectangle>, item: &Rectangle) -> (r: Vec<Rectangle>)
    requires
        all_wf(free@),
        item.wf(),
    ensures
        r@ == cut_spec(free@, *item),
        all_wf(r@),
        forall|px: int, py: int|
            #[trigger] covered(r@, px, py) <==> covered(free@, px, py) && !item.contains(px, py),
        disjoint_all(free@) ==> disjoint_all(r@),
{
    let mut new_list: Vec<Rectangle> = Vec::new();
    let mut j: usize = 0;
    while j < free.len()
        invariant
            all_wf(new_list@),
            all_wf(free@),
            item.wf(),
            j <= free@.len(),
            new_list@ == cut_spec(free@.subrange(0, j as int), *item),
            forall|px: int, py: int|
                #[trigger] covered(new_list@, px, py) <==> covered(
                    free@.subrange(0, j as int),
                    px,
                    py,
                ) && !item.contains(px, py),
            disjoint_all(free@) ==> disjoint_all(new_list@),
        decreases free.len() - j,
    {
        let space = free[j];
        proof {
            assert(free@[j as int].wf());
            lemma_covered_push(free@.subrange(0, j as int), space);
            assert(free@.subrange(0, j as int).push(space) =~= free@.subrange(0, j + 1));
            assert(free@.subrange(0, j + 1).drop_last() =~= free@.subrange(0, j as int));
        }
        let pieces = subtract_rect(&space, item);
        let ghost base = new_list@;
        append_all(&mut new_list, &pieces);
        proof {
            lemma_covered_concat(base, pieces@);
            if disjoint_all(free@) {
                assert forall|px: int, py: int| covered(pieces@, px, py) implies !covered(
                    base,
                    px,
                    py,
                ) by {
                    if covered(base, px, py) {
                        let k = choose|k: int|
                            0 <= k < j && (#[trigger] free@.subrange(0, j as int)[k]).contains(
                                px,
                                py,
                            );
                        assert(free@[k] == free@.subrange(0, j as int)[k]);
                        assert(free@[j as int].contains(px, py));
                    }
                }
                lemma_disjoint_concat(base, pieces@);
            }
            assert forall|px: int, py: int|
                #[trigger] covered(new_list@, px, py) <==> covered(
                    free@.subrange(0, j + 1),
                    px,
                    py,
                ) && !item.contains(px, py) by {
                assert(covered(base, px, py) <==> covered(free@.subrange(0, j as int), px, py)
                    && !item.contains(px, py));
            }
        }
        j = j + 1;
    }
    proof {
        assert(free@.subrange(0, j as int) =~= free@);
    }
    new_list
}

/// `free` with each rectangle of `items` cut out in turn.
pub open spec fn cut_all(free: Seq<Rectangle>, items: Seq<Rectangle>) -> Seq<Rectangle>
    decreases items.len(),
{
    if items.len() == 0 {
        free
    } else {
        cut_spec(cut_all(free, items.drop_last()), items.last())
    }
}

/// Hands out rectangular slots from a list of free rectangles.
#[derive(Debug)]
pub struct ItemAllocator {
    free_list: Vec<Rectangle>,
}

impl ItemAllocator {
    /// The free rectangles.
    pub closed spec fn free(&self) -> Seq<Rectangle> {
        self.free_list@
    }

    pub open spec fn wf(&self) -> bool {
        all_wf(self.free())
    }

    /// An allocator over a `width` by `height` area in which the rectangles of `occupied`
    /// are taken: each is cut out of the free list in turn.
    pub fn new(occupied: &[Rectangle], width: usize, height: usize) -> (r: ItemAllocator)
        requires
            all_wf(occupied@),
        ensures
            r.wf(),
            r.free() == cut_all(seq![Rectangle { x: 0, y: 0, width, height }], occupied@),
            disjoint_all(r.free()),
            forall|px: int, py: int|
                covered(r.free(), px, py) <==> (Rectangle { x: 0, y: 0, width, height }).contains(
                    px,
                    py,
                ) && !covered(occupied@, px, py),
    {
        let whole = Rectangle { x: 0, y: 0, width, height };
        let mut free_list: Vec<Rectangle> = Vec::new();
        free_list.push(whole);
        proof {
            assert(free_list@ =~= seq![whole]);
            assert(occupied@.subrange(0, 0) =~= Seq::<Rectangle>::empty());
            lemma_covered_push(Seq::<Rectangle>::empty(), whole);
            lemma_disjoint_push(Seq::<Rectangle>::empty(), whole);
        }
        let mut it: usize = 0;
        while it < occupied.len()
            invariant
                all_wf(free_list@),
                all_wf(occupied@),
                disjoint_all(free_list@),
                whole == (Rectangle { x: 0, y: 0, width, height }),
                it <= occupied@.len(),
                free_list@ == cut_all(seq![whole], occupied@.subrange(0, it as int)),
                forall|px: int, py: int|
                    #[trigger] covered(free_list@, px, py) <==> whole.contains(px, py) && !covered(
                        occupied@.subrange(0, it as int),
                        px,
                        py,
                    ),
            decreases occupied.len() - it,
        {
            let item = occupied[it];
            proof {
                assert(occupied@[it as int].wf());
            }
            let new_list = cut(&free_list, &item);
            proof {
                assert(occupied@.subrange(0, it + 1).drop_last() =~= occupied@.subrange(
                    0,
                    it as int,
                ));
                assert(occupied@.subrange(0, it + 1).last() == item);
                lemma_covered_push(occupied@.subrange(0, it as int), item);
                assert(occupied@.subrange(0, it as int).push(item) =~= occupied@.subrange(
                    0,
                    it + 1,
                ));
                assert forall|px: int, py: int|
                    #[trigger] covered(new_list@, px, py) <==> whole.contains(px, py) && !covered(
                        occupied@.subrange(0, it + 1),
                        px,
                        py,
                    ) by {
                    assert(covered(free_list@, px, py) <==> whole.contains(px, py) && !covered(
                        occupied@.subrange(0, it as int),
                        px,
                        py,
                    ));
                }
            }
            free_list = new_list;
            it = it + 1;
        }
        proof {
            assert(occupied@.subrange(0, it as int) =~= occupied@);
        }
        let r = ItemAllocator { free_list };
        assert forall|px: int, py: int|
            covered(r.free(), px, py) <==> whole.contains(px, py) && !covered(occupied@, px, py) by {
            assert(covered(free_list@, px, py) <==> whole.contains(px, py) && !covered(
                occupied@.subrange(0, it as int),
                px,
                py,
            ));
        }
        r
    }

    /// The free rectangles, in order.
    pub fn free_list(&self) -> (r: Vec<Rectangle>)
        ensures
            r@ == self.free(),
    {
        self.free_list.clone()
    }

    /// Returns `rect` to the free list.
    pub fn deallocate(&mut self, rect: Rectangle)
        requires
            old(self).wf(),
            rect.wf(),
        ensures
            final(self).wf(),
            final(self).free() == old(self).free().push(rect),
    {
        self.free_list.push(rect);
    }

    /// Takes the first position, scanning the free rectangles in order and each by column
    /// then row, at which a `width` by `height` slot lies wholly in free space; carves the
    /// slot out of the free list and returns it. An empty slot is never handed out.
    pub fn allocate(&mut self, width: usize, height: usize) -> (r: Option<Rectangle>)
        requires
            old(self).wf(),
        ensures
            final(self).wf(),
            r matches Some(a) ==> {
                &&& a.width == width
                &&& a.height == height
                &&& a.wf()
                &&& free_piece(old(self).free(), a)
                &&& exists|fi: int|
                    0 <= fi < old(self).free().len() && first_fit(
                        old(self).free(),
                        fi,
                        a.x as int,
                        a.y as int,
                        width,
                        height,
                    )
                &&& final(self).free() == cut_spec(old(self).free(), a)
                &&& forall|px: int, py: int|
                    #[trigger] covered(final(self).free(), px, py) <==> covered(
                        old(self).free(),
                        px,
                        py,
                    ) && !a.contains(px, py)
                &&& disjoint_all(old(self).free()) ==> disjoint_all(final(self).free())
            },
            r is None <==> forall|px: int, py: int| !fits(old(self).free(), px, py, width, height),
            r is None ==> final(self).free() == old(self).free(),
    {
        if width == 0 || height == 0 {
            return None;
        }
        let mut fi: usize = 0;
        while fi < self.free_list.len()
            invariant
                self.wf(),
                self.free() == old(self).free(),
                fi <= self.free_list.len(),
                width > 0,
                height > 0,
                forall|i: int, px: int, py: int|
                    0 <= i < fi && #[trigger] self.free()[i].contains(px, py) ==> !fits(
                        self.free(),
                        px,
                        py,
                        width,
                        height,
                    ),
            decreases self.free_list.len() - fi,
        {
            let free = self.free_list[fi];
            proof {
                assert(self.free()[fi as int].wf());
            }
            let mut x = free.x;
            while x < free.x + free.width
                invariant
                    self.wf(),
                    self.free() == old(self).free(),
                    fi < self.free().len(),
                    free == self.free()[fi as int],
                    free.wf(),
                    free.x <= x <= free.x + free.width,
                    width > 0,
                    height > 0,
                    forall|i: int, px: int, py: int|
                        0 <= i < fi && #[trigger] self.free()[i].contains(px, py) ==> !fits(
                            self.free(),
                            px,
                            py,
                            width,
                            height,
                        ),
                    forall|px: int, py: int|
                        free.x <= px < x && free.y <= py < free.y + free.height ==> !fits(
                            self.free(),
                            px,
                            py,
                            width,
                            height,
                        ),
                decreases free.x + free.width - x,
            {
                let mut y = free.y;
                while y < free.y + free.height
                    invariant
                        self.wf(),
                        self.free() == old(self).free(),
                        fi < self.free().len(),
                        free == self.free()[fi as int],
                        free.wf(),
                        free.y <= y <= free.y + free.height,
                        free.x <= x < free.x + free.width,
                        width > 0,
                        height > 0,
                        forall|i: int, px: int, py: int|
                            0 <= i < fi && #[trigger] self.free()[i].contains(px, py) ==> !fits(
                                self.free(),
                                px,
                                py,
                                width,
                                height,
                            ),
                        forall|px: int, py: int|
                            free.x <= px < x && free.y <= py < free.y + free.height ==> !fits(
                                self.free(),
                                px,
                                py,
                                width,
                                height,
                            ),
                        forall|py: int|
                            free.y <= py < y ==> !fits(self.free(), x as int, py, width, height),
                    decreases free.y + free.height - y,
                {
                    if x <= usize::MAX - width && y <= usize::MAX - height
                        && self.is_valid_in_free_list(x, y, width, height) {
                        let placed = Rectangle { x, y, width, height };
                        assert(fits(self.free(), x as int, y as int, width, height));
                        assert(first_fit(self.free(), fi as int, x as int, y as int, width, height));
                        self.carve(placed);
                        return Some(placed);
                    }
                    y = y + 1;
                }
                x = x + 1;
            }
            fi = fi + 1;
        }
        proof {
            assert forall|px: int, py: int| !fits(self.free(), px, py, width, height) by {
                if fits(self.free(), px, py, width, height) {
                    let slot = Rectangle { x: px as usize, y: py as usize, width, height };
                    assert(slot.contains(px, py));
                    let i = choose|i: int|
                        0 <= i < self.free().len() && (#[trigger] self.free()[i]).contains(px, py);
                }
            }
        }
        None
    }

    /// Cuts `placed` out of every free rectangle it meets.
    fn carve(&mut self, placed: Rectangle)
        requires
            old(self).wf(),
            placed.wf(),
        ensures
            final(self).wf(),
            final(self).free() == cut_spec(old(self).free(), placed),
            forall|px: int, py: int|
                #[trigger] covered(final(self).free(), px, py) <==> covered(old(self).free(), px, py)
                    && !placed.contains(px, py),
            disjoint_all(old(self).free()) ==> disjoint_all(final(self).free()),
    {
        self.free_list = cut(&self.free_list, &placed);
    }

    /// Whether every block of the `width` by `height` rectangle at (`x`, `y`) lies in some
    /// free rectangle. The blocks are worked through as a queue of pieces: each piece is
    /// matched against the first free rectangle it meets, and what that does not cover is
    /// queued again.
    fn is_valid_in_free_list(&self, x: usize, y: usize, width: usize, height: usize) -> (r: bool)
        requires
            self.wf(),
            x + width <= usize::MAX,
            y + height <= usize::MAX,
        ensures
            r <==> free_piece(self.free(), Rectangle { x, y, width, height }),
    {
        let ghost target = Rectangle { x, y, width, height };
        let ghost good = free_piece(self.free(), target);
        let mut queue: VecDeque<Rectangle> = VecDeque::new();
        queue.push_back(Rectangle { x, y, width, height });
        proof {
            lemma_covered_push(Seq::<Rectangle>::empty(), target);
            assert(queue@ =~= seq![target]);
        }
        loop
            invariant
                self.wf(),
                all_wf(queue@),
                target == (Rectangle { x, y, width, height }),
                good == free_piece(self.free(), target),
                good ==> forall|j: int|
                    0 <= j < queue@.len() ==> free_piece(self.free(), #[trigger] queue@[j]),
                target.is_empty() ==> queue@ == seq![target],
                forall|px: int, py: int|
                    #[trigger] target.contains(px, py) ==> covered(self.free(), px, py) || covered(
                        queue@,
                        px,
                        py,
                    ),
            ensures
                queue@.len() == 0,
                !target.is_empty(),
                forall|px: int, py: int|
                    #[trigger] target.contains(px, py) ==> covered(self.free(), px, py),
            decreases total_area(queue@),
        {
            let ghost before = queue@;
            let popped = queue.pop_front();
            let rect = match popped {
                None => {
                    break ;
                },
                Some(rect) => rect,
            };
            proof {
                lemma_covered_first(before);
                lemma_total_area_first(before);
            }
            assert forall|j: int| 0 <= j < queue@.len() implies (#[trigger] queue@[j]).wf() && (good
                ==> free_piece(self.free(), queue@[j])) by {
                assert(queue@[j] == before[j + 1]);
            }
            assert(good ==> free_piece(self.free(), rect));
            let mut found_overlap = false;
            let mut i: usize = 0;
            while i < self.free_list.len()
                invariant
                    self.wf(),
                    rect.wf(),
                    before.len() > 0,
                    rect == before[0],
                    total_area(before) == rect.area() + total_area(before.drop_first()),
                    all_wf(queue@),
                    i <= self.free_list.len(),
                    good == free_piece(self.free(), target),
                    good ==> free_piece(self.free(), rect),
                    good ==> forall|j: int|
                        0 <= j < queue@.len() ==> free_piece(self.free(), #[trigger] queue@[j]),
                    rect.is_empty() ==> !found_overlap,
                    target.is_empty() ==> rect == target,
                    !found_overlap ==> forall|k: int|
                        0 <= k < i ==> !overlaps(rect, #[trigger] self.free()[k]),
                    !found_overlap ==> queue@ == before.drop_first(),
                    found_overlap ==> total_area(queue@) < total_area(before),
                    forall|px: int, py: int|
                        #[trigger] target.contains(px, py) ==> covered(self.free(), px, py)
                            || covered(queue@, px, py) || (!found_overlap && rect.contains(
                            px,
                            py,
                        )),
                ensures
                    found_overlap || forall|k: int|
                        0 <= k < self.free().len() ==> !overlaps(rect, #[trigger] self.free()[k]),
                    !found_overlap ==> queue@ == before.drop_first(),
                    found_overlap ==> total_area(queue@) < total_area(before),
                    good ==> forall|j: int|
                        0 <= j < queue@.len() ==> free_piece(self.free(), #[trigger] queue@[j]),
                    target.is_empty() ==> !found_overlap,
                    all_wf(queue@),
                    forall|px: int, py: int|
                        #[trigger] target.contains(px, py) ==> covered(self.free(), px, py)
                            || covered(queue@, px, py) || (!found_overlap && rect.contains(
                            px,
                            py,
                        )),
                decreases self.free_list.len() - i + (if found_overlap {
                    0int
                } else {
                    1int
                }),
            {
                if found_overlap {
                    break ;
                }
                let space = &self.free_list[i];
                match get_overlap(&rect, space) {
                    Some(overlap) => {
                        found_overlap = true;
                        // What the space does not cover goes back on the queue.
                        let remaining_parts = subtract_rect(&rect, &overlap);
                        let ghost queued = queue@;
                        let mut k: usize = 0;
                        while k < remaining_parts.len()
                            invariant
                                all_wf(queue@),
                                forall|j: int|
                                    0 <= j < remaining_parts@.len() ==> (#[trigger] remaining_parts@[j]).wf()
                                        && !remaining_parts@[j].is_empty(),
                                forall|px: int, py: int|
                                    covered(remaining_parts@, px, py) ==> rect.contains(px, py),
                                good ==> free_piece(self.free(), rect),
                                good ==> forall|j: int|
                                    0 <= j < queue@.len() ==> free_piece(self.free(), #[trigger] queue@[j]),
                                k <= remaining_parts@.len(),
                                queue@ == queued + remaining_parts@.subrange(0, k as int),
                                total_area(queue@) == total_area(queued) + total_area(
                                    remaining_parts@.subrange(0, k as int),
                                ),
                            decreases remaining_parts.len() - k,
                        {
                            let piece = remaining_parts[k];
                            proof {
                                assert forall|px: int, py: int|
                                    #[trigger] piece.contains(px, py) implies rect.contains(px, py) by {
                                    assert(remaining_parts@[k as int].contains(px, py));
                                }
                                lemma_total_area_push(queue@, piece);
                                lemma_total_area_push(remaining_parts@.subrange(0, k as int), piece);
                                assert(remaining_parts@.subrange(0, k as int).push(piece)
                                    =~= remaining_parts@.subrange(0, k + 1));
                            }
                            queue.push_back(piece);
                            k = k + 1;
                        }
                        proof {
                            assert(remaining_parts@.subrange(0, k as int) =~= remaining_parts@);
                            assert forall|px: int, py: int|
                                #[trigger] target.contains(px, py) implies covered(
                                    self.free(),
                                    px,
                                    py,
                                ) || covered(queue@, px, py) by {
                                if covered(queued, px, py) {
                                    let j = choose|j: int|
                                        0 <= j < queued.len() && (#[trigger] queued[j]).contains(
                                            px,
                                            py,
                                        );
                                    assert(queue@[j] == queued[j]);
                                } else if rect.contains(px, py) {
                                    if overlap.contains(px, py) {
                                        assert(self.free()[i as int].contains(px, py));
                                    } else {
                                        assert(covered(remaining_parts@, px, py));
                                        let j = choose|j: int|
                                            0 <= j < remaining_parts@.len()
                                                && (#[trigger] remaining_parts@[j]).contains(
                                                px,
                                                py,
                                            );
                                        assert(queue@[queued.len() + j] == remaining_parts@[j]);
                                    }
                                }
                            }
                            assert(overlap.area() > 0) by (nonlinear_arith)
                                requires
                                    overlap.width > 0,
                                    overlap.height > 0,
                            ;
                        }
                    },
                    None => {
                        i = i + 1;
                    },
                }
            }
            if !found_overlap {
                proof {
                    if good {
                        assert(rect.contains(rect.x as int, rect.y as int));
                        let k = choose|k: int|
                            0 <= k < self.free().len() && (#[trigger] self.free()[k]).contains(
                                rect.x as int,
                                rect.y as int,
                            );
                        assert(overlaps(rect, self.free()[k]));
                    }
                }
                return false;
            }
        }
        true
    }
}

} // verus!
