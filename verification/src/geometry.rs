//! Logical-coordinate geometry: points, output rectangles, and the pointer
//! clamp that bounds a candidate pointer position to the active outputs.

use vstd::prelude::*;

verus! {

/// A point in the compositor's logical coordinate space.
#[derive(Clone, Copy, PartialEq, Eq, Structural, Debug)]
pub struct Point {
    pub x: i64,
    pub y: i64,
}

/// An output's rectangle in logical coordinates: origin plus size.
#[derive(Clone, Copy, PartialEq, Eq, Structural, Debug)]
pub struct Rect {
    pub x: i64,
    pub y: i64,
    pub w: i64,
    pub h: i64,
}

impl Rect {
    /// A rectangle is well formed when its size is non-negative and its far
    /// edges are representable.
    pub open spec fn wf(self) -> bool {
        &&& 0 <= self.w
        &&& 0 <= self.h
        &&& self.x + self.w <= i64::MAX as int
        &&& self.y + self.h <= i64::MAX as int
    }

    /// Closed-rectangle membership: both far edges belong to the rectangle,
    /// so a point clamped onto an edge still counts as inside.
    pub open spec fn contains(self, p: Point) -> bool {
        &&& self.x <= p.x
        &&& p.x as int <= self.x + self.w
        &&& self.y <= p.y
        &&& p.y as int <= self.y + self.h
    }

    /// Whether the vertical line at `x` meets the rectangle at height zero:
    /// the probe used to pick the output under an already-clamped abscissa.
    pub open spec fn covers_x(self, x: int) -> bool {
        &&& self.x as int <= x
        &&& x <= self.x + self.w
        &&& self.y <= 0
        &&& 0 <= self.y + self.h
    }
}

/// Total width of a sequence of output rectangles laid out left to right.
pub open spec fn total_width(s: Seq<Rect>) -> int
    decreases s.len(),
{
    if s.len() == 0 {
        0
    } else {
        total_width(s.drop_last()) + s.last().w
    }
}

/// `v` raised to at least `lo`, then lowered to at most `hi`, in that order
/// (so `hi` wins if the bounds cross).
pub open spec fn clamped(v: int, lo: int, hi: int) -> int {
    let raised = if v < lo {
        lo
    } else {
        v
    };
    if raised > hi {
        hi
    } else {
        raised
    }
}

/// Height of the first rectangle, in the given order, that covers the
/// vertical line at `x`.
pub open spec fn height_at(s: Seq<Rect>, x: int) -> Option<int>
    decreases s.len(),
{
    if s.len() == 0 {
        None
    } else if s[0].covers_x(x) {
        Some(s[0].h as int)
    } else {
        height_at(s.subrange(1, s.len() as int), x)
    }
}

/// What the pointer clamp returns: with no outputs the candidate passes
/// through untouched; otherwise the abscissa is clamped to the summed width
/// of all outputs, and the ordinate is clamped to the height of the first
/// output covering the clamped abscissa, or left untouched if none does.
pub open spec fn clamp_spec(pos: Point, outputs: Seq<Rect>) -> Point {
    if outputs.len() == 0 {
        pos
    } else {
        let cx = clamped(pos.x as int, 0, total_width(outputs));
        match height_at(outputs, cx) {
            Some(h) => Point { x: cx as i64, y: clamped(pos.y as int, 0, h) as i64 },
            None => Point { x: cx as i64, y: pos.y },
        }
    }
}

proof fn lemma_total_width_nonneg(s: Seq<Rect>)
    requires
        forall|i: int| 0 <= i < s.len() ==> (#[trigger] s[i]).wf(),
    ensures
        0 <= total_width(s),
    decreases s.len(),
{
    if s.len() > 0 {
        assert(forall|i: int|
            0 <= i < s.drop_last().len() ==> (#[trigger] s.drop_last()[i]).wf());
        lemma_total_width_nonneg(s.drop_last());
    }
}

proof fn lemma_total_width_prefix_step(s: Seq<Rect>, i: int)
    requires
        0 <= i < s.len(),
    ensures
        total_width(s.subrange(0, i + 1)) == total_width(s.subrange(0, i)) + s[i].w,
{
    assert(s.subrange(0, i + 1).drop_last() =~= s.subrange(0, i));
    assert(s.subrange(0, i + 1).last() == s[i]);
}

proof fn lemma_total_width_prefix_bound(s: Seq<Rect>, i: int)
    requires
        forall|j: int| 0 <= j < s.len() ==> (#[trigger] s[j]).wf(),
        0 <= i <= s.len(),
    ensures
        total_width(s.subrange(0, i)) <= total_width(s),
    decreases s.len() - i,
{
    if i == s.len() {
        assert(s.subrange(0, i) =~= s);
    } else {
        lemma_total_width_prefix_step(s, i);
        lemma_total_width_prefix_bound(s, i + 1);
    }
}

proof fn lemma_height_at_characterizes(s: Seq<Rect>, x: int)
    ensures
        match height_at(s, x) {
            Some(h) => exists|i: int|
                0 <= i < s.len() && (#[trigger] s[i]).covers_x(x) && h == s[i].h,
            None => forall|i: int| 0 <= i < s.len() ==> !(#[trigger] s[i]).covers_x(x),
        },
    decreases s.len(),
{
    if s.len() > 0 && !s[0].covers_x(x) {
        let rest = s.subrange(1, s.len() as int);
        lemma_height_at_characterizes(rest, x);
        match height_at(s, x) {
            Some(h) => {
                let i = choose|i: int|
                    0 <= i < rest.len() && (#[trigger] rest[i]).covers_x(x) && h == rest[i].h;
                assert(s[i + 1].covers_x(x) && h == s[i + 1].h);
            },
            None => {
                assert(forall|i: int|
                    1 <= i < s.len() ==> (#[trigger] s[i]) == rest[i - 1]);
            },
        }
    }
}

/// Bound a candidate pointer position to the active output rectangles; an
/// empty output set leaves the position untouched.
pub fn clamp_coords(pos: Point, outputs: &Vec<Rect>) -> (r: Point)
    requires
        forall|i: int| 0 <= i < outputs@.len() ==> (#[trigger] outputs@[i]).wf(),
        total_width(outputs@) <= i64::MAX as int,
    ensures
        r == clamp_spec(pos, outputs@),
{
    if outputs.len() == 0 {
        return pos;
    }
    let ghost s = outputs@;
    let mut max_x: i64 = 0;
    let mut i: usize = 0;
    while i < outputs.len()
        invariant
            0 <= i <= s.len(),
            outputs@ == s,
            forall|k: int| 0 <= k < s.len() ==> (#[trigger] s[k]).wf(),
            total_width(s) <= i64::MAX as int,
            max_x as int == total_width(s.subrange(0, i as int)),
        decreases s.len() - i,
    {
        proof {
            lemma_total_width_prefix_step(s, i as int);
            lemma_total_width_prefix_bound(s, i + 1 as int);
            assert(forall|j: int|
                0 <= j < s.subrange(0, i as int).len()
                    ==> (#[trigger] s.subrange(0, i as int)[j]).wf());
            lemma_total_width_nonneg(s.subrange(0, i as int));
        }
        max_x = max_x + outputs[i].w;
        i = i + 1;
    }
    proof {
        assert(s.subrange(0, s.len() as int) =~= s);
        lemma_total_width_nonneg(s);
    }
    let clamped_x: i64 = if pos.x < 0 {
        0
    } else if pos.x > max_x {
        max_x
    } else {
        pos.x
    };
    let ghost cx = clamped(pos.x as int, 0, total_width(s));
    assert(clamped_x as int == cx);
    let mut j: usize = 0;
    while j < outputs.len()
        invariant
            0 <= j <= s.len(),
            outputs@ == s,
            forall|k: int| 0 <= k < s.len() ==> (#[trigger] s[k]).wf(),
            0 <= total_width(s) <= i64::MAX as int,
            cx == clamped(pos.x as int, 0, total_width(s)),
            clamped_x as int == cx,
            height_at(s, cx) == height_at(s.subrange(j as int, s.len() as int), cx),
        decreases s.len() - j,
    {
        let rj = outputs[j];
        proof {
            assert(s.subrange(j as int, s.len() as int)[0] == s[j as int]);
        }
        if rj.x <= clamped_x && clamped_x <= rj.x + rj.w && rj.y <= 0 && 0 <= rj.y + rj.h {
            assert(height_at(s, cx) == Some(rj.h as int));
            let clamped_y: i64 = if pos.y < 0 {
                0
            } else if pos.y > rj.h {
                rj.h
            } else {
                pos.y
            };
            return Point { x: clamped_x, y: clamped_y };
        }
        proof {
            assert(s.subrange(j as int, s.len() as int).subrange(
                1,
                s.subrange(j as int, s.len() as int).len() as int,
            ) =~= s.subrange(j + 1 as int, s.len() as int));
        }
        j = j + 1;
    }
    proof {
        assert(s.subrange(s.len() as int, s.len() as int).len() == 0);
        assert(height_at(s, cx) is None);
    }
    Point { x: clamped_x, y: pos.y }
}

/// Whether `p` lies inside at least one of the rectangles.
pub open spec fn in_union(s: Seq<Rect>, p: Point) -> bool {
    exists|i: int| 0 <= i < s.len() && (#[trigger] s[i]).contains(p)
}

/// The layout the clamp is specified against: outputs tiled in one
/// horizontal row starting at the origin, each beginning where the previous
/// ends, all with their top edge at height zero.
pub open spec fn horizontal_row(s: Seq<Rect>) -> bool {
    forall|i: int| 0 <= i < s.len() ==> {
        &&& (#[trigger] s[i]).wf()
        &&& s[i].y == 0
        &&& s[i].x as int == total_width(s.subrange(0, i))
    }
}

proof fn lemma_row_covers(s: Seq<Rect>, x: int)
    requires
        horizontal_row(s),
        s.len() > 0,
        0 <= x <= total_width(s),
    ensures
        exists|i: int| 0 <= i < s.len() && (#[trigger] s[i]).covers_x(x),
    decreases s.len(),
{
    let n = s.len() as int;
    lemma_total_width_prefix_step(s, n - 1);
    assert(s.subrange(0, n) =~= s);
    if x >= s[n - 1].x {
        assert(s[n - 1].covers_x(x));
    } else {
        let prefix = s.subrange(0, n - 1);
        assert(forall|i: int| 0 <= i < prefix.len() ==> {
            &&& (#[trigger] prefix[i]).wf()
            &&& prefix[i].y == 0
            &&& prefix[i].x as int == total_width(prefix.subrange(0, i))
        }) by {
            assert(forall|i: int|
                0 <= i < prefix.len() ==> prefix.subrange(0, i) =~= s.subrange(0, i));
        }
        lemma_row_covers(prefix, x);
        let i = choose|i: int| 0 <= i < prefix.len() && (#[trigger] prefix[i]).covers_x(x);
        assert(s[i].covers_x(x));
    }
}

/// Law: for any candidate point and a non-empty set of outputs tiled as a
/// horizontal row, the clamped point lies within the union of the outputs.
pub proof fn lemma_clamp_in_union(pos: Point, s: Seq<Rect>)
    requires
        horizontal_row(s),
        s.len() > 0,
        total_width(s) <= i64::MAX as int,
    ensures
        in_union(s, clamp_spec(pos, s)),
{
    assert(forall|i: int| 0 <= i < s.len() ==> (#[trigger] s[i]).wf());
    lemma_total_width_nonneg(s);
    let cx = clamped(pos.x as int, 0, total_width(s));
    lemma_row_covers(s, cx);
    lemma_height_at_characterizes(s, cx);
    match height_at(s, cx) {
        Some(h) => {
            let i = choose|i: int|
                0 <= i < s.len() && (#[trigger] s[i]).covers_x(cx) && h == s[i].h;
            let p = clamp_spec(pos, s);
            assert(s[i].contains(p));
        },
        None => {
            let i = choose|i: int| 0 <= i < s.len() && (#[trigger] s[i]).covers_x(cx);
            assert(false);
        },
    }
}

/// Law: with an empty output set the clamp is the identity function.
pub proof fn lemma_clamp_empty_identity(pos: Point, s: Seq<Rect>)
    requires
        s.len() == 0,
    ensures
        clamp_spec(pos, s) == pos,
{
}

} // verus!
