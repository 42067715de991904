//! The shape tree and the extraction of its path shapes.
//!
//! A drawing is a tree: path nodes carry curve segments, group nodes carry
//! children, and every other node kind is ignored. Extraction flattens the
//! tree into the ordered sequence of its path shapes, in document order.

use vstd::prelude::*;
use crate::geom::Coord;

verus! {

/// One curve command of a path shape, in fixed-point coordinates.
#[derive(Clone, Copy, PartialEq, Eq, Structural, Debug)]
pub enum Segment {
    MoveTo(Coord),
    LineTo(Coord),
    QuadTo(Coord, Coord),
    CubicTo(Coord, Coord, Coord),
    Close,
}

impl DeepView for Segment {
    type V = Segment;

    open spec fn deep_view(&self) -> Segment {
        *self
    }
}

/// The ordered curve segments of one path node.
#[derive(Debug)]
pub struct PathShape {
    pub segments: Vec<Segment>,
}

impl DeepView for PathShape {
    type V = Seq<Segment>;

    open spec fn deep_view(&self) -> Seq<Segment> {
        self.segments.deep_view()
    }
}

/// One node of the shape tree.
#[derive(Debug)]
pub enum ShapeNode {
    /// A path shape: the nodes extraction collects.
    Path(PathShape),
    /// A group: its children are traversed depth-first, in order.
    Group(Vec<ShapeNode>),
    /// Any other node kind: ignored.
    Other,
}

/// The path shapes reachable from `n`, in tree pre-order.
pub open spec fn extracted(n: ShapeNode) -> Seq<Seq<Segment>>
    decreases n,
{
    match n {
        ShapeNode::Path(p) => seq![p.deep_view()],
        ShapeNode::Group(cs) => extracted_all(cs@),
        ShapeNode::Other => Seq::empty(),
    }
}

/// The path shapes of a forest, in order.
pub open spec fn extracted_all(s: Seq<ShapeNode>) -> Seq<Seq<Segment>>
    decreases s,
{
    if s.len() == 0 {
        Seq::empty()
    } else {
        extracted_all(s.drop_last()) + extracted(s.last())
    }
}

/// The number of path nodes reachable from `n`.
pub open spec fn path_count(n: ShapeNode) -> nat
    decreases n,
{
    match n {
        ShapeNode::Path(_) => 1,
        ShapeNode::Group(cs) => path_count_all(cs@),
        ShapeNode::Other => 0,
    }
}

/// The number of path nodes in a forest.
pub open spec fn path_count_all(s: Seq<ShapeNode>) -> nat
    decreases s,
{
    if s.len() == 0 {
        0
    } else {
        path_count_all(s.drop_last()) + path_count(s.last())
    }
}

/// Extraction yields exactly one path shape per path node reachable from
/// the root, however deeply the groups nest.
pub proof fn lemma_extracted_count(n: ShapeNode)
    ensures
        extracted(n).len() == path_count(n),
    decreases n,
{
    match n {
        ShapeNode::Path(_) => {},
        ShapeNode::Group(cs) => {
            lemma_extracted_count_all(cs@);
        },
        ShapeNode::Other => {},
    }
}

/// The forest form of `lemma_extracted_count`.
pub proof fn lemma_extracted_count_all(s: Seq<ShapeNode>)
    ensures
        extracted_all(s).len() == path_count_all(s),
    decreases s,
{
    if s.len() > 0 {
        lemma_extracted_count_all(s.drop_last());
        lemma_extracted_count(s.last());
    }
}

/// Structural size of a node: a termination measure for the traversal.
pub open spec fn node_size(n: ShapeNode) -> nat
    decreases n,
{
    match n {
        ShapeNode::Path(_) => 1,
        ShapeNode::Group(cs) => forest_size(cs@) + 1,
        ShapeNode::Other => 1,
    }
}

/// Structural size of a forest.
pub open spec fn forest_size(s: Seq<ShapeNode>) -> nat
    decreases s,
{
    if s.len() == 0 {
        0
    } else {
        forest_size(s.drop_last()) + node_size(s.last())
    }
}

/// A child weighs no more than the whole forest.
proof fn lemma_forest_size_element(s: Seq<ShapeNode>, i: int)
    requires
        0 <= i < s.len(),
    ensures
        node_size(s[i]) <= forest_size(s),
    decreases s.len(),
{
    if i == s.len() - 1 {
    } else {
        lemma_forest_size_element(s.drop_last(), i);
        assert(s.drop_last()[i] == s[i]);
    }
}

/// Copy a segment list (segments are plain values).
fn copy_segments(v: &Vec<Segment>) -> (r: Vec<Segment>)
    ensures
        r@ == v@,
{
    let mut r: Vec<Segment> = Vec::new();
    let mut i: usize = 0;
    while i < v.len()
        invariant
            0 <= i <= v@.len(),
            r@ == v@.take(i as int),
        decreases v@.len() - i,
    {
        r.push(v[i]);
        proof {
            assert(v@.take(i + 1) =~= v@.take(i as int).push(v@[i as int]));
        }
        i = i + 1;
    }
    proof {
        assert(v@.take(v@.len() as int) =~= v@);
    }
    r
}

/// Walk the tree and collect every path shape, in document order.
///
/// Group nodes are traversed depth-first; other node kinds are skipped
/// without error.
pub fn extract_shapes(root: &ShapeNode) -> (r: Vec<PathShape>)
    ensures
        r.deep_view() == extracted(*root),
        r@.len() == path_count(*root),
    decreases node_size(*root),
{
    proof {
        lemma_extracted_count(*root);
    }
    match root {
        ShapeNode::Path(p) => {
            let mut r: Vec<PathShape> = Vec::new();
            r.push(PathShape { segments: copy_segments(&p.segments) });
            proof {
                assert(r.deep_view() =~= extracted(*root));
            }
            r
        },
        ShapeNode::Group(cs) => {
            let mut r: Vec<PathShape> = Vec::new();
            let mut i: usize = 0;
            proof {
                assert(r.deep_view() =~= extracted_all(cs@.take(0)));
            }
            while i < cs.len()
                invariant
                    0 <= i <= cs@.len(),
                    *root == ShapeNode::Group(*cs),
                    r.deep_view() == extracted_all(cs@.take(i as int)),
                decreases cs@.len() - i,
            {
                proof {
                    lemma_forest_size_element(cs@, i as int);
                }
                let mut sub = extract_shapes(&cs[i]);
                let ghost r_before = r.deep_view();
                let ghost sub0 = sub.deep_view();
                while sub.len() > 0
                    invariant
                        r.deep_view() + sub.deep_view() == r_before + sub0,
                    decreases sub@.len(),
                {
                    let ghost r_dv = r.deep_view();
                    let ghost sub_dv = sub.deep_view();
                    let s = sub.remove(0);
                    proof {
                        assert(s.deep_view() == sub_dv[0]);
                        assert(sub.deep_view() =~= sub_dv.drop_first());
                    }
                    r.push(s);
                    proof {
                        assert(r.deep_view() =~= r_dv.push(sub_dv[0]));
                        assert(r.deep_view() + sub.deep_view() =~= r_dv + sub_dv);
                    }
                }
                proof {
                    assert(sub.deep_view() =~= Seq::<Seq<Segment>>::empty());
                    assert(r.deep_view() =~= r_before + sub0);
                    assert(cs@.take(i + 1).drop_last() =~= cs@.take(i as int));
                    assert(cs@.take(i + 1).last() == cs@[i as int]);
                    assert(r.deep_view() == extracted_all(cs@.take(i + 1)));
                }
                i = i + 1;
            }
            proof {
                assert(cs@.take(cs@.len() as int) =~= cs@);
            }
            r
        },
        ShapeNode::Other => {
            let r: Vec<PathShape> = Vec::new();
            proof {
                assert(r.deep_view() =~= extracted(*root));
            }
            r
        },
    }
}

} // verus!
