//! The incremental group combiner.
//!
//! Polygon groups are merged one at a time into a running combined set:
//! each group is offset by the configured distance, the offset footprint is
//! subtracted from the accumulation, and the group's exact contours are
//! united back in, so that every shape's true boundary survives while
//! overlaps with earlier offset halos are resolved by subtraction. After
//! the last group a fixed cleanup runs: coarse simplify, small-artifact
//! filter, union against the empty set, fine simplify — in this exact
//! order.
//!
//! The clipping engine itself stays outside the library. The combiner is a
//! state machine: `request` names the one clipping call that must run
//! next, the caller performs it and hands the answer to `advance`, and the
//! contract of `advance` pins the whole schedule, so the order of
//! operations — the designed invariant of the algorithm — is verified, and
//! the result is a function of the groups and the engine's answers alone.

use vstd::prelude::*;
use crate::geom::{
    Coord, area2, clone_polys, filter_small, filtered, iabs, lemma_filtered_min_area, wf_polys,
};

verus! {

/// Twice the minimum unsigned contour area (in squared hundredth-units)
/// that survives the small-artifact filter: 50 square units.
pub const MIN_AREA2: i128 = 1_000_000;

/// Coarse simplification tolerance of the first cleanup pass, in
/// hundredths of a unit: 0.2 units.
pub const SIMPLIFY_COARSE_CENTI: i64 = 20;

/// Fine simplification tolerance of the last cleanup pass, in hundredths
/// of a unit: 0.1 units.
pub const SIMPLIFY_FINE_CENTI: i64 = 10;

/// Where the combiner stands in its schedule: which clipping answer it is
/// waiting for.
#[derive(Clone, Copy, PartialEq, Eq, Structural, Debug)]
pub enum Phase {
    /// Waiting for the offset of the current group.
    AwaitInflate,
    /// Waiting for `combined` minus the offset footprint.
    AwaitDifference,
    /// Waiting for the union of `combined` with the current group.
    AwaitUnion,
    /// Waiting for the coarse simplification of `combined`.
    AwaitSimplifyCoarse,
    /// Waiting for the self-union that normalizes the filtered set.
    AwaitUnionEmpty,
    /// Waiting for the fine simplification of `combined`.
    AwaitSimplifyFine,
    /// The schedule is complete; `combined` is the result.
    Finished,
}

/// The mathematical state of a combiner.
#[verifier::ext_equal]
pub struct CombinerModel {
    pub groups: Seq<Seq<Seq<Coord>>>,
    pub idx: int,
    pub combined: Seq<Seq<Coord>>,
    pub expanded: Seq<Seq<Coord>>,
    pub phase: Phase,
    pub delta_centi: int,
}

/// The phase that follows once the group at `idx - 1` is dealt with.
pub open spec fn after_group_phase(groups: Seq<Seq<Seq<Coord>>>, idx: int) -> Phase {
    if idx < groups.len() {
        Phase::AwaitInflate
    } else {
        Phase::AwaitSimplifyCoarse
    }
}

/// The one transition of the combiner: what receiving the answer `resp`
/// to the pending clipping call does to the state. The combined result of
/// a whole run is this function folded over the engine's answers, so equal
/// groups and equal answers always give equal results.
pub open spec fn transition(m: CombinerModel, resp: Seq<Seq<Coord>>) -> CombinerModel {
    match m.phase {
        Phase::AwaitInflate => if m.combined.len() == 0 {
            CombinerModel {
                groups: m.groups,
                idx: m.idx + 1,
                combined: m.groups[m.idx],
                expanded: m.expanded,
                phase: after_group_phase(m.groups, m.idx + 1),
                delta_centi: m.delta_centi,
            }
        } else {
            CombinerModel {
                groups: m.groups,
                idx: m.idx,
                combined: m.combined,
                expanded: resp,
                phase: Phase::AwaitDifference,
                delta_centi: m.delta_centi,
            }
        },
        Phase::AwaitDifference => CombinerModel {
            groups: m.groups,
            idx: m.idx,
            combined: resp,
            expanded: m.expanded,
            phase: Phase::AwaitUnion,
            delta_centi: m.delta_centi,
        },
        Phase::AwaitUnion => CombinerModel {
            groups: m.groups,
            idx: m.idx + 1,
            combined: resp,
            expanded: m.expanded,
            phase: after_group_phase(m.groups, m.idx + 1),
            delta_centi: m.delta_centi,
        },
        Phase::AwaitSimplifyCoarse => CombinerModel {
            groups: m.groups,
            idx: m.idx,
            combined: filtered(resp, MIN_AREA2 as int),
            expanded: m.expanded,
            phase: Phase::AwaitUnionEmpty,
            delta_centi: m.delta_centi,
        },
        Phase::AwaitUnionEmpty => CombinerModel {
            groups: m.groups,
            idx: m.idx,
            combined: resp,
            expanded: m.expanded,
            phase: Phase::AwaitSimplifyFine,
            delta_centi: m.delta_centi,
        },
        Phase::AwaitSimplifyFine => CombinerModel {
            groups: m.groups,
            idx: m.idx,
            combined: resp,
            expanded: m.expanded,
            phase: Phase::Finished,
            delta_centi: m.delta_centi,
        },
        Phase::Finished => m,
    }
}

/// How many clipping answers a combiner still consumes before it
/// finishes: three per remaining group at most, then the three cleanup
/// answers.
pub open spec fn steps_left(m: CombinerModel) -> int {
    let per_group = 3 * (m.groups.len() - m.idx);
    match m.phase {
        Phase::AwaitInflate => 3 + per_group,
        Phase::AwaitDifference => 2 + per_group,
        Phase::AwaitUnion => 1 + per_group,
        Phase::AwaitSimplifyCoarse => 3,
        Phase::AwaitUnionEmpty => 2,
        Phase::AwaitSimplifyFine => 1,
        Phase::Finished => 0,
    }
}

/// The index constraints every reachable combiner state satisfies.
pub open spec fn model_wf(m: CombinerModel) -> bool {
    &&& (m.phase is AwaitInflate || m.phase is AwaitDifference || m.phase is AwaitUnion)
        ==> m.idx < m.groups.len()
    &&& 0 <= m.idx <= m.groups.len()
}

/// Every answer brings the schedule strictly closer to its end, whatever
/// the clipping engine returned: a run over finitely many groups always
/// terminates, with the same state for the same groups and answers.
pub proof fn lemma_schedule_progress(m: CombinerModel, resp: Seq<Seq<Coord>>)
    requires
        model_wf(m),
        !(m.phase is Finished),
    ensures
        model_wf(transition(m, resp)),
        0 <= steps_left(transition(m, resp)) < steps_left(m),
{
}

/// One clipping call the engine must perform, under the nonzero fill rule
/// throughout. Offsets use a round join and closed-polygon ends.
#[derive(Debug)]
pub enum ClipRequest {
    /// Offset every contour of the set by the carried distance
    /// (hundredths of a unit; negative shrinks).
    Inflate(i64, Vec<Vec<Coord>>),
    /// Subtract the second set from the first.
    Difference(Vec<Vec<Coord>>, Vec<Vec<Coord>>),
    /// Unite the two sets.
    Union(Vec<Vec<Coord>>, Vec<Vec<Coord>>),
    /// Simplify with the coarse tolerance `SIMPLIFY_COARSE_CENTI`.
    SimplifyCoarse(Vec<Vec<Coord>>),
    /// Unite the set with the empty set: the normalizing self-union.
    UnionEmpty(Vec<Vec<Coord>>),
    /// Simplify with the fine tolerance `SIMPLIFY_FINE_CENTI`.
    SimplifyFine(Vec<Vec<Coord>>),
}

/// The combiner: the accumulator of the fold over the polygon groups.
pub struct Combiner {
    /// The polygon groups, in extraction order.
    pub groups: Vec<Vec<Vec<Coord>>>,
    /// The group currently being merged.
    pub idx: usize,
    /// The accumulated combined set.
    pub combined: Vec<Vec<Coord>>,
    /// The offset footprint of the current group, once received.
    pub expanded: Vec<Vec<Coord>>,
    /// Where the schedule stands.
    pub phase: Phase,
    /// The offset distance, in hundredths of a unit.
    pub delta_centi: i64,
}

impl View for Combiner {
    type V = CombinerModel;

    open spec fn view(&self) -> CombinerModel {
        CombinerModel {
            groups: self.groups.deep_view(),
            idx: self.idx as int,
            combined: self.combined.deep_view(),
            expanded: self.expanded.deep_view(),
            phase: self.phase,
            delta_centi: self.delta_centi as int,
        }
    }
}

impl Combiner {
    /// The combiner's invariant: the index stays in range while groups
    /// remain, and every stored set respects the coordinate bounds.
    pub open spec fn wf(&self) -> bool {
        &&& (self.phase is AwaitInflate || self.phase is AwaitDifference || self.phase
            is AwaitUnion) ==> self@.idx < self@.groups.len()
        &&& self@.idx <= self@.groups.len()
        &&& wf_polys(self@.combined)
        &&& wf_polys(self@.expanded)
        &&& forall|i: int| 0 <= i < self@.groups.len() ==> wf_polys(#[trigger] self@.groups[i])
    }

    /// Start a run over `groups`, to be merged in order with offset
    /// distance `delta_centi`. The accumulation starts empty; with no
    /// groups at all the schedule goes straight to cleanup, which still
    /// runs in full.
    pub fn new(groups: Vec<Vec<Vec<Coord>>>, delta_centi: i64) -> (r: Combiner)
        requires
            forall|i: int|
                0 <= i < groups.deep_view().len() ==> wf_polys(#[trigger] groups.deep_view()[i]),
        ensures
            r.wf(),
            r@.groups == groups.deep_view(),
            r@.idx == 0,
            r@.combined == Seq::<Seq<Coord>>::empty(),
            r@.delta_centi == delta_centi as int,
            r@.phase == after_group_phase(groups.deep_view(), 0),
    {
        let n = groups.len();
        let r = Combiner {
            groups,
            idx: 0,
            combined: Vec::new(),
            expanded: Vec::new(),
            phase: if n > 0 {
                Phase::AwaitInflate
            } else {
                Phase::AwaitSimplifyCoarse
            },
            delta_centi,
        };
        proof {
            assert(r.combined.deep_view() =~= Seq::<Seq<Coord>>::empty());
            assert(r.expanded.deep_view() =~= Seq::<Seq<Coord>>::empty());
        }
        r
    }

    /// The clipping call the engine must perform next; nothing once the
    /// schedule is finished.
    pub fn request(&self) -> (r: Option<ClipRequest>)
        requires
            self.wf(),
        ensures
            (r is None) == (self.phase is Finished),
            self.phase is AwaitInflate ==> (r matches Some(ClipRequest::Inflate(d, g))
                && d == self.delta_centi && g.deep_view() == self@.groups[self@.idx]),
            self.phase is AwaitDifference ==> (r matches Some(ClipRequest::Difference(a, b))
                && a.deep_view() == self@.combined && b.deep_view() == self@.expanded),
            self.phase is AwaitUnion ==> (r matches Some(ClipRequest::Union(a, b))
                && a.deep_view() == self@.combined && b.deep_view() == self@.groups[self@.idx]),
            self.phase is AwaitSimplifyCoarse ==> (r matches Some(ClipRequest::SimplifyCoarse(a))
                && a.deep_view() == self@.combined),
            self.phase is AwaitUnionEmpty ==> (r matches Some(ClipRequest::UnionEmpty(a))
                && a.deep_view() == self@.combined),
            self.phase is AwaitSimplifyFine ==> (r matches Some(ClipRequest::SimplifyFine(a))
                && a.deep_view() == self@.combined),
    {
        match self.phase {
            Phase::AwaitInflate => {
                let g = clone_polys(&self.groups[self.idx]);
                proof {
                    assert(self.groups@[self.idx as int].deep_view() == self@.groups[self@.idx]);
                }
                Some(ClipRequest::Inflate(self.delta_centi, g))
            },
            Phase::AwaitDifference => Some(
                ClipRequest::Difference(clone_polys(&self.combined), clone_polys(&self.expanded)),
            ),
            Phase::AwaitUnion => {
                let g = clone_polys(&self.groups[self.idx]);
                proof {
                    assert(self.groups@[self.idx as int].deep_view() == self@.groups[self@.idx]);
                }
                Some(ClipRequest::Union(clone_polys(&self.combined), g))
            },
            Phase::AwaitSimplifyCoarse => Some(
                ClipRequest::SimplifyCoarse(clone_polys(&self.combined)),
            ),
            Phase::AwaitUnionEmpty => Some(ClipRequest::UnionEmpty(clone_polys(&self.combined))),
            Phase::AwaitSimplifyFine => Some(ClipRequest::SimplifyFine(clone_polys(&self.combined))),
            Phase::Finished => None,
        }
    }

    /// Hand the combiner the engine's answer to the pending call. The new
    /// state is exactly `transition` of the old one: seeding on an empty
    /// accumulation, difference before union for every later group, and
    /// the four cleanup steps in their fixed order.
    pub fn advance(&mut self, resp: Vec<Vec<Coord>>)
        requires
            old(self).wf(),
            !(old(self).phase is Finished),
            wf_polys(resp.deep_view()),
        ensures
            final(self).wf(),
            final(self)@ == transition(old(self)@, resp.deep_view()),
            old(self).phase is AwaitSimplifyCoarse ==> forall|i: int|
                0 <= i < final(self)@.combined.len() ==> iabs(
                    area2(#[trigger] final(self)@.combined[i]),
                ) >= MIN_AREA2 as int,
    {
        let ghost m0 = self@;
        let ghost resp_dv = resp.deep_view();
        match self.phase {
            Phase::AwaitInflate => {
                if self.combined.len() == 0 {
                    proof {
                        assert(self.combined.deep_view() =~= Seq::<Seq<Coord>>::empty());
                        assert(self.groups@[self.idx as int].deep_view() == m0.groups[m0.idx]);
                    }
                    let g = clone_polys(&self.groups[self.idx]);
                    self.combined = g;
                    let n = self.groups.len();
                    proof {
                        assert(m0.groups.len() == self.groups@.len());
                        assert(self.idx < n);
                    }
                    self.idx = self.idx + 1;
                    self.phase = if self.idx < n {
                        Phase::AwaitInflate
                    } else {
                        Phase::AwaitSimplifyCoarse
                    };
                } else {
                    self.expanded = resp;
                    self.phase = Phase::AwaitDifference;
                }
            },
            Phase::AwaitDifference => {
                self.combined = resp;
                self.phase = Phase::AwaitUnion;
            },
            Phase::AwaitUnion => {
                self.combined = resp;
                let n = self.groups.len();
                proof {
                    assert(m0.groups.len() == self.groups@.len());
                    assert(self.idx < n);
                }
                self.idx = self.idx + 1;
                self.phase = if self.idx < n {
                    Phase::AwaitInflate
                } else {
                    Phase::AwaitSimplifyCoarse
                };
            },
            Phase::AwaitSimplifyCoarse => {
                self.combined = filter_small(&resp, MIN_AREA2);
                self.phase = Phase::AwaitUnionEmpty;
                proof {
                    lemma_filtered_min_area(resp_dv, MIN_AREA2 as int);
                }
            },
            Phase::AwaitUnionEmpty => {
                self.combined = resp;
                self.phase = Phase::AwaitSimplifyFine;
            },
            Phase::AwaitSimplifyFine => {
                self.combined = resp;
                self.phase = Phase::Finished;
            },
            Phase::Finished => {},
        }
        proof {
            assert(self@ =~= transition(m0, resp_dv));
        }
    }
}

} // verus!
