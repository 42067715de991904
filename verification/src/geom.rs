//! Plane geometry over fixed-point coordinates.
//!
//! All coordinates are integers counting hundredths of a drawing unit, so a
//! contour is a closed polygon whose vertices lie on a 0.01-unit grid.
//! Signed areas are therefore exact integers (twice the area, in squared
//! hundredth-units), which lets the small-artifact filter be verified
//! without any rounding argument.

use vstd::prelude::*;

verus! {

/// Largest coordinate magnitude the library accepts (10^7 drawing units).
/// Keeps every cross product within `i128` range.
pub const COORD_LIMIT: i64 = 1_000_000_000;

/// Largest number of vertices in one contour, and of contours in one set.
pub const LEN_LIMIT: usize = 100_000_000;

/// Magnitude bound for one cross product of well-formed points.
pub const CROSS_BOUND: i128 = 2_000_000_000_000_000_000;

/// One polygon vertex, in hundredths of a drawing unit.
#[derive(Clone, Copy, PartialEq, Eq, Structural, Debug)]
pub struct Coord {
    pub x: i64,
    pub y: i64,
}

impl DeepView for Coord {
    type V = Coord;

    open spec fn deep_view(&self) -> Coord {
        *self
    }
}

pub open spec fn wf_coord(p: Coord) -> bool {
    &&& -(COORD_LIMIT as int) <= p.x <= COORD_LIMIT as int
    &&& -(COORD_LIMIT as int) <= p.y <= COORD_LIMIT as int
}

pub open spec fn wf_contour(c: Seq<Coord>) -> bool {
    &&& c.len() <= LEN_LIMIT as int
    &&& forall|i: int| 0 <= i < c.len() ==> wf_coord(#[trigger] c[i])
}

pub open spec fn wf_polys(s: Seq<Seq<Coord>>) -> bool {
    &&& s.len() <= LEN_LIMIT as int
    &&& forall|i: int| 0 <= i < s.len() ==> wf_contour(#[trigger] s[i])
}

/// Cross product of two vertices taken as vectors from the origin;
/// one term of the shoelace sum.
pub open spec fn cross(a: Coord, b: Coord) -> int {
    a.x * b.y - b.x * a.y
}

/// Shoelace sum over the first `k` edges of `c` (edges between
/// consecutive vertices, the closing edge not included).
pub open spec fn edge_sum(c: Seq<Coord>, k: int) -> int
    decreases k,
{
    if k <= 0 {
        0
    } else {
        edge_sum(c, k - 1) + cross(c[k - 1], c[k])
    }
}

/// Twice the signed area of the closed polygon `c` (its last vertex is
/// joined back to its first). Zero for fewer than three vertices.
pub open spec fn area2(c: Seq<Coord>) -> int {
    if c.len() == 0 {
        0
    } else {
        edge_sum(c, c.len() - 1) + cross(c[c.len() - 1], c[0])
    }
}

pub proof fn lemma_cross_bound(a: Coord, b: Coord)
    requires
        wf_coord(a),
        wf_coord(b),
    ensures
        -(CROSS_BOUND as int) <= cross(a, b) <= CROSS_BOUND as int,
{
    assert(-(CROSS_BOUND as int) <= a.x * b.y - b.x * a.y <= CROSS_BOUND as int) by (nonlinear_arith)
        requires
            -(COORD_LIMIT as int) <= a.x <= COORD_LIMIT as int,
            -(COORD_LIMIT as int) <= a.y <= COORD_LIMIT as int,
            -(COORD_LIMIT as int) <= b.x <= COORD_LIMIT as int,
            -(COORD_LIMIT as int) <= b.y <= COORD_LIMIT as int,
            CROSS_BOUND as int == 2 * (COORD_LIMIT as int) * (COORD_LIMIT as int),
    ;
}

pub proof fn lemma_edge_sum_bound(c: Seq<Coord>, k: int)
    requires
        wf_contour(c),
        0 <= k < c.len(),
    ensures
        -(k * CROSS_BOUND as int) <= edge_sum(c, k) <= k * CROSS_BOUND as int,
    decreases k,
{
    if k > 0 {
        lemma_edge_sum_bound(c, k - 1);
        lemma_cross_bound(c[k - 1], c[k]);
    }
}

/// One cross product, computed exactly in `i128`.
fn cross_exec(a: Coord, b: Coord) -> (r: i128)
    requires
        wf_coord(a),
        wf_coord(b),
    ensures
        r as int == cross(a, b),
        -CROSS_BOUND <= r <= CROSS_BOUND,
{
    let ax: i128 = a.x as i128;
    let ay: i128 = a.y as i128;
    let bx: i128 = b.x as i128;
    let by: i128 = b.y as i128;
    proof {
        lemma_cross_bound(a, b);
        assert(-1_000_000_000_000_000_000 <= ax * by <= 1_000_000_000_000_000_000
            && -1_000_000_000_000_000_000 <= bx * ay <= 1_000_000_000_000_000_000)
            by (nonlinear_arith)
            requires
                -1_000_000_000 <= ax <= 1_000_000_000,
                -1_000_000_000 <= ay <= 1_000_000_000,
                -1_000_000_000 <= bx <= 1_000_000_000,
                -1_000_000_000 <= by <= 1_000_000_000,
        ;
    }
    ax * by - bx * ay
}

/// Twice the signed area of one contour, by the shoelace formula.
pub fn double_area(c: &Vec<Coord>) -> (r: i128)
    requires
        wf_contour(c@),
    ensures
        r as int == area2(c@),
{
    if c.len() == 0 {
        return 0;
    }
    let mut acc: i128 = 0;
    let mut i: usize = 1;
    while i < c.len()
        invariant
            wf_contour(c@),
            1 <= i <= c.len(),
            acc as int == edge_sum(c@, i - 1),
            -((i - 1) * CROSS_BOUND as int) <= acc as int <= (i - 1) * CROSS_BOUND as int,
        decreases c.len() - i,
    {
        let t = cross_exec(c[i - 1], c[i]);
        proof {
            assert((i as int) * CROSS_BOUND as int <= (LEN_LIMIT as int) * CROSS_BOUND as int
                && (i - 1) * CROSS_BOUND as int + CROSS_BOUND as int == (i as int) * CROSS_BOUND
                as int) by (nonlinear_arith)
                requires
                    1 <= i <= LEN_LIMIT as int,
            ;
        }
        acc = acc + t;
        i = i + 1;
    }
    let t = cross_exec(c[c.len() - 1], c[0]);
    proof {
        lemma_edge_sum_bound(c@, c.len() - 1);
        assert((c@.len() - 1) * CROSS_BOUND as int <= (LEN_LIMIT as int) * CROSS_BOUND as int)
            by (nonlinear_arith)
            requires
                1 <= c@.len() <= LEN_LIMIT as int,
        ;
    }
    acc + t
}

/// Absolute value of a signed area.
pub open spec fn iabs(v: int) -> int {
    if v < 0 {
        -v
    } else {
        v
    }
}

/// The polygon sets of `s` whose unsigned doubled area is at least `m`,
/// in their original order.
pub open spec fn filtered(s: Seq<Seq<Coord>>, m: int) -> Seq<Seq<Coord>>
    decreases s.len(),
{
    if s.len() == 0 {
        Seq::empty()
    } else if iabs(area2(s.last())) >= m {
        filtered(s.drop_last(), m).push(s.last())
    } else {
        filtered(s.drop_last(), m)
    }
}

/// Every contour the filter keeps meets the area floor.
pub proof fn lemma_filtered_min_area(s: Seq<Seq<Coord>>, m: int)
    ensures
        forall|i: int|
            0 <= i < filtered(s, m).len() ==> iabs(area2(#[trigger] filtered(s, m)[i])) >= m,
    decreases s.len(),
{
    if s.len() > 0 {
        lemma_filtered_min_area(s.drop_last(), m);
        let f = filtered(s, m);
        let fd = filtered(s.drop_last(), m);
        if iabs(area2(s.last())) >= m {
            assert forall|i: int| 0 <= i < f.len() implies iabs(area2(#[trigger] f[i])) >= m by {
                if i < f.len() - 1 {
                    assert(f[i] == fd[i]);
                } else {
                    assert(f[i] == s.last());
                }
            }
        }
    }
}

/// Every coordinate bound on a contour bounds its doubled area as well.
pub proof fn lemma_area2_bound(c: Seq<Coord>)
    requires
        wf_contour(c),
    ensures
        -((LEN_LIMIT as int) * CROSS_BOUND as int) <= area2(c) <= (LEN_LIMIT as int) * CROSS_BOUND
            as int,
{
    if c.len() == 0 {
    } else {
        lemma_edge_sum_bound(c, c.len() - 1);
        lemma_cross_bound(c[c.len() - 1], c[0]);
        assert((c.len() - 1) * CROSS_BOUND as int + CROSS_BOUND as int <= (LEN_LIMIT as int)
            * CROSS_BOUND as int) by (nonlinear_arith)
            requires
                1 <= c.len() <= LEN_LIMIT as int,
        ;
    }
}

/// Drop every contour whose unsigned doubled area is below `min_area2`.
///
/// This is the small-artifact cleanup pass: sliver contours left behind by
/// boolean operations are removed before the final normalization.
pub fn filter_small(set: &Vec<Vec<Coord>>, min_area2: i128) -> (r: Vec<Vec<Coord>>)
    requires
        wf_polys(set.deep_view()),
        0 <= min_area2,
    ensures
        r.deep_view() == filtered(set.deep_view(), min_area2 as int),
        wf_polys(r.deep_view()),
{
    let ghost sdv = set.deep_view();
    let mut r: Vec<Vec<Coord>> = Vec::new();
    let mut i: usize = 0;
    proof {
        assert(r.deep_view() =~= filtered(sdv.take(0), min_area2 as int));
    }
    while i < set.len()
        invariant
            wf_polys(sdv),
            sdv == set.deep_view(),
            sdv.len() == set@.len(),
            0 <= i <= set@.len(),
            r.deep_view() == filtered(sdv.take(i as int), min_area2 as int),
            r@.len() <= i,
            wf_polys(r.deep_view()),
        decreases set@.len() - i,
    {
        proof {
            assert(sdv[i as int] == set@[i as int].deep_view());
            assert(set@[i as int].deep_view() =~= set@[i as int]@);
            assert(wf_contour(sdv[i as int]));
            lemma_area2_bound(sdv[i as int]);
        }
        let a = double_area(&set[i]);
        let keep = if a < 0 {
            -a >= min_area2
        } else {
            a >= min_area2
        };
        proof {
            assert(sdv.take(i + 1).drop_last() =~= sdv.take(i as int));
            assert(sdv.take(i + 1).last() == sdv[i as int]);
        }
        if keep {
            let c = set[i].clone();
            proof {
                assert(c@ == set@[i as int]@);
            }
            r.push(c);
            proof {
                assert(r.deep_view() =~= filtered(sdv.take(i + 1), min_area2 as int));
            }
        } else {
            proof {
                assert(r.deep_view() =~= filtered(sdv.take(i + 1), min_area2 as int));
            }
        }
        i = i + 1;
    }
    proof {
        assert(sdv.take(sdv.len() as int) =~= sdv);
    }
    r
}

/// Copy one contour (vertices are plain values).
pub fn clone_contour(v: &Vec<Coord>) -> (r: Vec<Coord>)
    ensures
        r@ == v@,
{
    let mut r: Vec<Coord> = Vec::new();
    let mut i: usize = 0;
    while i < v.len()
        invariant
            0 <= i <= v@.len(),
            r@ == v@.take(i as int),
        decreases v@.len() - i,
    {
        r.push(v[i]);
        proof {
            assert(v@.take(i + 1) =~= v@.take(i as int).push(v@[i as int]));
        }
        i = i + 1;
    }
    proof {
        assert(v@.take(v@.len() as int) =~= v@);
    }
    r
}

/// Copy a polygon set.
pub fn clone_polys(v: &Vec<Vec<Coord>>) -> (r: Vec<Vec<Coord>>)
    ensures
        r.deep_view() == v.deep_view(),
{
    let mut r: Vec<Vec<Coord>> = Vec::new();
    let mut i: usize = 0;
    while i < v.len()
        invariant
            0 <= i <= v@.len(),
            r.deep_view() == v.deep_view().take(i as int),
        decreases v@.len() - i,
    {
        let c = clone_contour(&v[i]);
        let ghost r_dv = r.deep_view();
        let ghost c_dv = c.deep_view();
        proof {
            assert(c_dv =~= v@[i as int]@);
            assert(v.deep_view()[i as int] =~= v@[i as int]@);
        }
        r.push(c);
        proof {
            assert(r.deep_view() =~= r_dv.push(c_dv));
            assert(r.deep_view() =~= v.deep_view().take(i + 1));
        }
        i = i + 1;
    }
    proof {
        assert(v.deep_view().take(v@.len() as int) =~= v.deep_view());
    }
    r
}

/// Decide at run time whether one contour meets the library's bounds.
pub fn check_contour(c: &Vec<Coord>) -> (b: bool)
    ensures
        b == wf_contour(c@),
{
    if c.len() > LEN_LIMIT {
        return false;
    }
    let mut ok: bool = true;
    let mut i: usize = 0;
    while i < c.len()
        invariant
            0 <= i <= c@.len(),
            ok == forall|j: int| 0 <= j < i ==> wf_coord(#[trigger] c@[j]),
        decreases c@.len() - i,
    {
        let p = c[i];
        let good = -COORD_LIMIT <= p.x && p.x <= COORD_LIMIT && -COORD_LIMIT <= p.y && p.y
            <= COORD_LIMIT;
        ok = ok && good;
        i = i + 1;
    }
    ok
}

/// Decide at run time whether a whole polygon set meets the library's bounds.
pub fn check_polys(set: &Vec<Vec<Coord>>) -> (b: bool)
    ensures
        b == wf_polys(set.deep_view()),
{
    let ghost sdv = set.deep_view();
    if set.len() > LEN_LIMIT {
        return false;
    }
    let mut ok: bool = true;
    let mut i: usize = 0;
    while i < set.len()
        invariant
            0 <= i <= set@.len(),
            sdv == set.deep_view(),
            sdv.len() == set@.len(),
            ok == forall|j: int| 0 <= j < i ==> wf_contour(#[trigger] sdv[j]),
        decreases set@.len() - i,
    {
        proof {
            assert(sdv[i as int] =~= set@[i as int]@);
        }
        let good = check_contour(&set[i]);
        ok = ok && good;
        i = i + 1;
    }
    ok
}

} // verus!
