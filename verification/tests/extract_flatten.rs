use polyfuse::flatten::{FlatEvent, contours_from_events};
use polyfuse::geom::Coord;
use polyfuse::tree::{PathShape, Segment, ShapeNode, extract_shapes};

fn pt(x: i64, y: i64) -> Coord {
    Coord { x, y }
}

fn shape(tag: i64) -> PathShape {
    PathShape {
        segments: vec![
            Segment::MoveTo(pt(tag, 0)),
            Segment::LineTo(pt(tag, 100)),
            Segment::Close,
        ],
    }
}

#[test]
fn extract_counts_path_nodes_at_any_depth() {
    let tree = ShapeNode::Group(vec![
        ShapeNode::Path(shape(1)),
        ShapeNode::Group(vec![
            ShapeNode::Other,
            ShapeNode::Path(shape(2)),
            ShapeNode::Group(vec![ShapeNode::Path(shape(3))]),
        ]),
        ShapeNode::Other,
        ShapeNode::Path(shape(4)),
    ]);
    let shapes = extract_shapes(&tree);
    assert_eq!(shapes.len(), 4);
    for (i, tag) in [1i64, 2, 3, 4].iter().enumerate() {
        assert_eq!(shapes[i].segments, shape(*tag).segments);
    }
}

#[test]
fn extract_ignores_other_nodes_and_empty_groups() {
    let tree = ShapeNode::Group(vec![
        ShapeNode::Other,
        ShapeNode::Group(vec![]),
        ShapeNode::Group(vec![ShapeNode::Other]),
    ]);
    let shapes = extract_shapes(&tree);
    assert_eq!(shapes.len(), 0);
}

#[test]
fn extract_of_bare_path_node() {
    let tree = ShapeNode::Path(shape(7));
    let shapes = extract_shapes(&tree);
    assert_eq!(shapes.len(), 1);
    assert_eq!(shapes[0].segments, shape(7).segments);
}

#[test]
fn closed_subpath_with_three_points_is_kept() {
    let ev = vec![
        FlatEvent::Begin(pt(0, 0)),
        FlatEvent::Line(pt(100, 0)),
        FlatEvent::Line(pt(100, 100)),
        FlatEvent::End(true),
    ];
    let contours = contours_from_events(&ev);
    assert_eq!(contours.len(), 1);
    assert_eq!(contours[0], vec![pt(0, 0), pt(100, 0), pt(100, 100)]);
}

#[test]
fn open_subpath_is_dropped() {
    let ev = vec![
        FlatEvent::Begin(pt(0, 0)),
        FlatEvent::Line(pt(100, 0)),
        FlatEvent::Line(pt(100, 100)),
        FlatEvent::End(false),
    ];
    assert_eq!(contours_from_events(&ev).len(), 0);
}

#[test]
fn short_closed_subpath_is_dropped() {
    let ev = vec![
        FlatEvent::Begin(pt(0, 0)),
        FlatEvent::Line(pt(100, 0)),
        FlatEvent::End(true),
    ];
    assert_eq!(contours_from_events(&ev).len(), 0);
}

#[test]
fn every_kept_contour_is_closed_and_has_three_points() {
    let ev = vec![
        FlatEvent::Begin(pt(0, 0)),
        FlatEvent::Line(pt(100, 0)),
        FlatEvent::Line(pt(100, 100)),
        FlatEvent::End(true),
        FlatEvent::Begin(pt(500, 500)),
        FlatEvent::Line(pt(600, 500)),
        FlatEvent::End(false),
        FlatEvent::Begin(pt(0, 0)),
        FlatEvent::Line(pt(10, 0)),
        FlatEvent::Line(pt(10, 10)),
        FlatEvent::Line(pt(0, 10)),
        FlatEvent::End(true),
    ];
    let contours = contours_from_events(&ev);
    assert_eq!(contours.len(), 2);
    for c in &contours {
        assert!(c.len() >= 3);
    }
    assert_eq!(contours[1].len(), 4);
}

#[test]
fn stream_without_closed_end_yields_nothing() {
    let ev = vec![
        FlatEvent::Begin(pt(0, 0)),
        FlatEvent::Line(pt(100, 0)),
        FlatEvent::Line(pt(200, 100)),
        FlatEvent::End(false),
        FlatEvent::Begin(pt(1, 1)),
        FlatEvent::Line(pt(2, 2)),
        FlatEvent::Line(pt(3, 1)),
        FlatEvent::End(false),
    ];
    assert_eq!(contours_from_events(&ev).len(), 0);
}
