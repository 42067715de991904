//! Building closed contours out of curve-flattening events.
//!
//! A tessellation engine reduces a path shape, under an error tolerance,
//! to a stream of events: begin a subpath at a point, extend it by a line
//! to a point, end it with a closed flag. This module turns such a stream
//! into the shape's polygon group: one contour per subpath that ended
//! closed with at least three vertices; every other accumulation is
//! dropped.

use vstd::prelude::*;
use crate::geom::Coord;

verus! {

/// One curve-flattening event.
#[derive(Clone, Copy, PartialEq, Eq, Structural, Debug)]
pub enum FlatEvent {
    /// A subpath starts at this point.
    Begin(Coord),
    /// The current subpath continues with a line to this point.
    Line(Coord),
    /// The current subpath ends; `true` means it was explicitly closed.
    End(bool),
}

impl DeepView for FlatEvent {
    type V = FlatEvent;

    open spec fn deep_view(&self) -> FlatEvent {
        *self
    }
}

/// How one event transforms the accumulation state: the committed
/// contours so far, and the open accumulation if a subpath is in progress.
pub open spec fn step_state(st: (Seq<Seq<Coord>>, Option<Seq<Coord>>), e: FlatEvent) -> (
    Seq<Seq<Coord>>,
    Option<Seq<Coord>>,
) {
    match e {
        FlatEvent::Begin(p) => (st.0, Some(seq![p])),
        FlatEvent::Line(p) => match st.1 {
            Some(c) => (st.0, Some(c.push(p))),
            None => st,
        },
        FlatEvent::End(closed) => match st.1 {
            Some(c) => if closed && c.len() >= 3 {
                (st.0.push(c), None)
            } else {
                (st.0, None)
            },
            None => st,
        },
    }
}

/// The accumulation state after a whole event stream.
pub open spec fn run_events(ev: Seq<FlatEvent>) -> (Seq<Seq<Coord>>, Option<Seq<Coord>>)
    decreases ev.len(),
{
    if ev.len() == 0 {
        (Seq::empty(), None)
    } else {
        step_state(run_events(ev.drop_last()), ev.last())
    }
}

/// The contours an event stream commits: the polygon group of its shape.
pub open spec fn contours_of(ev: Seq<FlatEvent>) -> Seq<Seq<Coord>> {
    run_events(ev).0
}

/// Every committed contour has at least three vertices.
pub proof fn lemma_contours_min_len(ev: Seq<FlatEvent>)
    ensures
        forall|i: int|
            0 <= i < contours_of(ev).len() ==> (#[trigger] contours_of(ev)[i]).len() >= 3,
    decreases ev.len(),
{
    if ev.len() > 0 {
        lemma_contours_min_len(ev.drop_last());
        let st = run_events(ev.drop_last());
        let f = contours_of(ev);
        assert forall|i: int| 0 <= i < f.len() implies (#[trigger] f[i]).len() >= 3 by {
            if i < st.0.len() {
                assert(f[i] == contours_of(ev.drop_last())[i]);
            }
        }
    }
}

/// A stream in which no subpath ends closed commits no contour:
/// open subpaths never produce one.
pub proof fn lemma_open_subpaths_yield_nothing(ev: Seq<FlatEvent>)
    requires
        forall|i: int| 0 <= i < ev.len() ==> ev[i] != FlatEvent::End(true),
    ensures
        contours_of(ev).len() == 0,
    decreases ev.len(),
{
    if ev.len() > 0 {
        assert(forall|i: int|
            0 <= i < ev.drop_last().len() ==> #[trigger] ev.drop_last()[i] == ev[i]);
        lemma_open_subpaths_yield_nothing(ev.drop_last());
        assert(ev.last() != FlatEvent::End(true));
    }
}

/// Fold an event stream into its polygon group.
///
/// An accumulation starts on every begin event, collects the begin point
/// and every later line point, and is committed only when its subpath
/// ends with the closed flag and at least three collected points.
pub fn contours_from_events(ev: &Vec<FlatEvent>) -> (r: Vec<Vec<Coord>>)
    ensures
        r.deep_view() == contours_of(ev@),
        forall|i: int| 0 <= i < r@.len() ==> (#[trigger] r@[i])@.len() >= 3,
{
    let mut r: Vec<Vec<Coord>> = Vec::new();
    let mut cur: Vec<Coord> = Vec::new();
    let mut have_cur: bool = false;
    let mut i: usize = 0;
    proof {
        assert(ev@.take(0) =~= Seq::<FlatEvent>::empty());
        assert(r.deep_view() =~= run_events(ev@.take(0)).0);
    }
    while i < ev.len()
        invariant
            0 <= i <= ev@.len(),
            r.deep_view() == run_events(ev@.take(i as int)).0,
            have_cur ==> run_events(ev@.take(i as int)).1 == Some(cur@),
            !have_cur ==> run_events(ev@.take(i as int)).1 is None,
        decreases ev@.len() - i,
    {
        let ghost st = run_events(ev@.take(i as int));
        proof {
            assert(ev@.take(i + 1).drop_last() =~= ev@.take(i as int));
            assert(ev@.take(i + 1).last() == ev@[i as int]);
        }
        match ev[i] {
            FlatEvent::Begin(p) => {
                cur = Vec::new();
                cur.push(p);
                have_cur = true;
                proof {
                    assert(cur@ =~= seq![p]);
                }
            },
            FlatEvent::Line(p) => {
                if have_cur {
                    cur.push(p);
                }
            },
            FlatEvent::End(closed) => {
                if have_cur {
                    if closed && cur.len() >= 3 {
                        let ghost r_dv = r.deep_view();
                        let ghost cur_v = cur@;
                        proof {
                            assert(cur.deep_view() =~= cur_v);
                        }
                        r.push(cur);
                        cur = Vec::new();
                        proof {
                            assert(r.deep_view() =~= r_dv.push(cur_v));
                        }
                    }
                    have_cur = false;
                }
            },
        }
        i = i + 1;
    }
    proof {
        assert(ev@.take(ev@.len() as int) =~= ev@);
        lemma_contours_min_len(ev@);
        assert(forall|i: int|
            0 <= i < r@.len() ==> r.deep_view()[i] == (#[trigger] r@[i]).deep_view());
        assert(forall|i: int| 0 <= i < r@.len() ==> (#[trigger] r@[i]).deep_view() =~= r@[i]@);
    }
    r
}

} // verus!
