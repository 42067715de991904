//! Run statistics: vertex and polygon counts.
//!
//! Observability only — nothing here feeds back into the geometry.

use vstd::prelude::*;
use crate::geom::{Coord, LEN_LIMIT, wf_polys};

verus! {

/// Total number of vertices over all contours of a polygon set.
pub open spec fn total_vertices(s: Seq<Seq<Coord>>) -> int
    decreases s.len(),
{
    if s.len() == 0 {
        0
    } else {
        total_vertices(s.drop_last()) + s.last().len()
    }
}

/// The vertex total of a bounded set stays far below the counter's range.
proof fn lemma_total_vertices_bound(s: Seq<Seq<Coord>>)
    requires
        wf_polys(s),
    ensures
        0 <= total_vertices(s) <= s.len() * LEN_LIMIT as int,
    decreases s.len(),
{
    if s.len() > 0 {
        assert(wf_polys(s.drop_last()));
        lemma_total_vertices_bound(s.drop_last());
        assert((s.len() - 1) * LEN_LIMIT as int + LEN_LIMIT as int == s.len() * LEN_LIMIT as int)
            by (nonlinear_arith);
    }
}

/// Count the vertices of a polygon set.
pub fn count_vertices(set: &Vec<Vec<Coord>>) -> (n: u64)
    requires
        wf_polys(set.deep_view()),
    ensures
        n as int == total_vertices(set.deep_view()),
{
    let ghost dv = set.deep_view();
    let mut n: u64 = 0;
    let mut i: usize = 0;
    while i < set.len()
        invariant
            wf_polys(dv),
            dv == set.deep_view(),
            dv.len() == set@.len(),
            0 <= i <= set@.len(),
            n as int == total_vertices(dv.take(i as int)),
        decreases set@.len() - i,
    {
        proof {
            assert(dv.take(i + 1).drop_last() =~= dv.take(i as int));
            assert(dv.take(i + 1).last() == dv[i as int]);
            assert(dv[i as int] =~= set@[i as int]@);
            assert(wf_polys(dv.take(i + 1)));
            lemma_total_vertices_bound(dv.take(i + 1));
            assert((i + 1) * LEN_LIMIT as int <= (LEN_LIMIT as int) * LEN_LIMIT as int)
                by (nonlinear_arith)
                requires
                    0 <= i + 1 <= LEN_LIMIT as int,
            ;
        }
        n = n + set[i].len() as u64;
        i = i + 1;
    }
    proof {
        assert(dv.take(dv.len() as int) =~= dv);
    }
    n
}

/// The vertex reduction of a run, in thousandths: how much smaller the
/// output vertex count is than the input one. Nothing is reported when
/// the output did not shrink.
pub fn reduction_permille(input: u64, output: u64) -> (r: Option<u64>)
    ensures
        (r is Some) == (output < input),
        r matches Some(p) ==> p as int == 1000 * (input - output) / (input as int),
{
    if output < input {
        let num: u128 = 1000u128 * ((input - output) as u128);
        let den: u128 = input as u128;
        let q: u128 = num / den;
        proof {
            assert(num / den <= 1000) by (nonlinear_arith)
                requires
                    den > 0,
                    num <= 1000 * den,
            ;
        }
        Some(q as u64)
    } else {
        None
    }
}

} // verus!
