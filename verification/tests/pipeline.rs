use clipper2::{Centi, EndType, FillRule, JoinType, Path, Paths, Point, difference, inflate, union};
use lyon::path::iterator::PathIterator;
use polyfuse::flatten::{FlatEvent, contours_from_events};
use polyfuse::tree::{PathShape, Segment, ShapeNode, extract_shapes};
use polyfuse::combine::{
    ClipRequest, Combiner, SIMPLIFY_COARSE_CENTI, SIMPLIFY_FINE_CENTI,
};
use polyfuse::emit::emit_document;
use polyfuse::geom::Coord;

fn pt(x: i64, y: i64) -> Coord {
    Coord { x, y }
}

fn square(x: i64, y: i64, side: i64) -> Vec<Coord> {
    vec![pt(x, y), pt(x + side, y), pt(x + side, y + side), pt(x, y + side)]
}

fn circle(cx: f64, cy: f64, r: f64, n: usize) -> Vec<Coord> {
    (0..n)
        .map(|i| {
            let a = 2.0 * std::f64::consts::PI * (i as f64) / (n as f64);
            pt(
                ((cx + r * a.cos()) * 100.0).round() as i64,
                ((cy + r * a.sin()) * 100.0).round() as i64,
            )
        })
        .collect()
}

fn to_clipper(set: &[Vec<Coord>]) -> Paths<Centi> {
    Paths::new(
        set.iter()
            .map(|c| {
                Path::new(c.iter().map(|p| Point::<Centi>::from_scaled(p.x, p.y)).collect())
            })
            .collect(),
    )
}

fn from_clipper(paths: &Paths<Centi>) -> Vec<Vec<Coord>> {
    paths
        .iter()
        .map(|path| {
            path.iter().map(|p| pt(p.x_scaled(), p.y_scaled())).collect()
        })
        .collect()
}

fn perform(req: ClipRequest) -> Vec<Vec<Coord>> {
    match req {
        ClipRequest::Inflate(delta_centi, g) => from_clipper(&inflate(
            to_clipper(&g),
            delta_centi as f64 / 100.0,
            JoinType::Round,
            EndType::Polygon,
            0.0,
        )),
        ClipRequest::Difference(a, b) => from_clipper(
            &difference(to_clipper(&a), to_clipper(&b), FillRule::NonZero).unwrap(),
        ),
        ClipRequest::Union(a, b) => {
            from_clipper(&union(to_clipper(&a), to_clipper(&b), FillRule::NonZero).unwrap())
        }
        ClipRequest::SimplifyCoarse(a) => {
            from_clipper(&to_clipper(&a).simplify(SIMPLIFY_COARSE_CENTI as f64 / 100.0, true))
        }
        ClipRequest::UnionEmpty(a) => from_clipper(
            &union(to_clipper(&a), Paths::<Centi>::new(vec![]), FillRule::NonZero).unwrap(),
        ),
        ClipRequest::SimplifyFine(a) => {
            from_clipper(&to_clipper(&a).simplify(SIMPLIFY_FINE_CENTI as f64 / 100.0, true))
        }
    }
}

fn run_schedule(groups: Vec<Vec<Vec<Coord>>>, delta_centi: i64) -> Vec<Vec<Coord>> {
    let mut c = Combiner::new(groups, delta_centi);
    while let Some(req) = c.request() {
        let resp = perform(req);
        assert!(polyfuse::geom::check_polys(&resp));
        c.advance(resp);
    }
    c.combined
}

#[test]
fn tree_to_document_round_trip_for_one_square() {
    let tree = ShapeNode::Group(vec![ShapeNode::Path(PathShape {
        segments: vec![
            Segment::MoveTo(pt(500, 500)),
            Segment::LineTo(pt(1500, 500)),
            Segment::LineTo(pt(1500, 1500)),
            Segment::LineTo(pt(500, 1500)),
            Segment::Close,
        ],
    })]);
    let shapes = extract_shapes(&tree);
    assert_eq!(shapes.len(), 1);

    // Tessellate the one shape and fold its events into contours.
    let mut builder = lyon::path::Path::builder();
    for seg in &shapes[0].segments {
        match *seg {
            Segment::MoveTo(p) => {
                builder.begin((p.x as f32 / 100.0, p.y as f32 / 100.0).into());
            }
            Segment::LineTo(p) => {
                builder.line_to((p.x as f32 / 100.0, p.y as f32 / 100.0).into());
            }
            Segment::Close => {
                builder.close();
            }
            _ => unreachable!(),
        }
    }
    let path = builder.build();
    let mut events = Vec::new();
    for event in path.iter().flattened(0.1) {
        match event {
            lyon::path::Event::Begin { at } => events.push(FlatEvent::Begin(pt(
                (at.x as f64 * 100.0).round() as i64,
                (at.y as f64 * 100.0).round() as i64,
            ))),
            lyon::path::Event::Line { to, .. } => events.push(FlatEvent::Line(pt(
                (to.x as f64 * 100.0).round() as i64,
                (to.y as f64 * 100.0).round() as i64,
            ))),
            lyon::path::Event::End { close, .. } => events.push(FlatEvent::End(close)),
            _ => {}
        }
    }
    let contours = contours_from_events(&events);
    assert_eq!(contours.len(), 1);
    assert_eq!(contours[0].len(), 4);

    let result = run_schedule(vec![contours], 0);
    let doc = emit_document(2000, 2000, &result);
    for corner in ["5 5", "15 5", "15 15", "5 15"] {
        assert!(doc.contains(corner), "corner {} missing from {}", corner, doc);
    }
}

#[test]
fn two_disjoint_squares_zero_offset_keep_both_contours() {
    // 10 x 10 unit squares, 10 units apart, offset distance zero.
    let groups = vec![vec![square(0, 0, 1000)], vec![square(2000, 0, 1000)]];
    let mut c = Combiner::new(groups, 0);
    // Run the per-group merging, stopping before the cleanup passes.
    loop {
        match c.request() {
            Some(ClipRequest::SimplifyCoarse(_)) => break,
            Some(req) => {
                let resp = perform(req);
                c.advance(resp);
            }
            None => panic!("schedule ended before cleanup"),
        }
    }
    assert_eq!(c.combined.len(), 2);
    for contour in &c.combined {
        assert_eq!(contour.len(), 4);
        for i in 0..contour.len() {
            for j in 0..i {
                assert_ne!(contour[i], contour[j]);
            }
        }
    }
}

#[test]
fn single_square_zero_offset_keeps_its_corners() {
    let corners = [pt(500, 500), pt(1500, 500), pt(1500, 1500), pt(500, 1500)];
    let result = run_schedule(vec![vec![square(500, 500, 1000)]], 0);
    assert_eq!(result.len(), 1);
    for corner in &corners {
        assert!(
            result[0].contains(corner),
            "corner {:?} missing from {:?}",
            corner,
            result[0]
        );
    }
}

#[test]
fn overlapping_circles_with_positive_offset_merge_seamlessly() {
    // Two overlapping 5-unit circles, merged with a 10-unit offset.
    let groups = vec![
        vec![circle(10.0, 10.0, 5.0, 32)],
        vec![circle(14.0, 10.0, 5.0, 32)],
    ];
    let result = run_schedule(groups, 1000);
    assert_eq!(result.len(), 1, "expected one merged contour, got {:?}", result.len());
}

#[test]
fn rerunning_the_schedule_reproduces_the_document() {
    let groups = vec![
        vec![circle(10.0, 10.0, 5.0, 32)],
        vec![square(2000, 0, 1000)],
    ];
    let first = run_schedule(groups.clone(), 150);
    let second = run_schedule(groups, 150);
    assert_eq!(first, second);
    let doc_a = emit_document(4000, 3000, &first);
    let doc_b = emit_document(4000, 3000, &second);
    assert_eq!(doc_a, doc_b);
}

#[test]
fn empty_input_yields_empty_document() {
    let result = run_schedule(vec![], 1000);
    assert_eq!(result.len(), 0);
    let doc = emit_document(1000, 1000, &result);
    assert!(doc.contains("<path d=\"\""));
}

#[test]
fn sliver_contours_are_filtered_out_of_the_result() {
    // A 1 x 1 unit square has area 1, far below the 50-square-unit floor:
    // the cleanup passes must drop it entirely.
    let result = run_schedule(vec![vec![square(0, 0, 100)]], 0);
    assert_eq!(result.len(), 0);
}

#[test]
fn empty_group_contributes_nothing_but_does_not_stop_the_run() {
    let groups = vec![vec![], vec![square(0, 0, 1000)], vec![]];
    let result = run_schedule(groups, 0);
    assert_eq!(result.len(), 1);
}
