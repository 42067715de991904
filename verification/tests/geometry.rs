use polyfuse::combine::MIN_AREA2;
use polyfuse::geom::{COORD_LIMIT, Coord, check_polys, double_area, filter_small};
use polyfuse::stats::{count_vertices, reduction_permille};

fn pt(x: i64, y: i64) -> Coord {
    Coord { x, y }
}

fn square(x: i64, y: i64, side: i64) -> Vec<Coord> {
    vec![pt(x, y), pt(x + side, y), pt(x + side, y + side), pt(x, y + side)]
}

#[test]
fn double_area_of_unit_square_is_exact() {
    // 1 unit by 1 unit, counter-clockwise: twice the area is 2 * 100 * 100.
    assert_eq!(double_area(&square(0, 0, 100)), 20_000);
}

#[test]
fn double_area_sign_follows_orientation() {
    let cw: Vec<Coord> = vec![pt(0, 0), pt(0, 100), pt(100, 100), pt(100, 0)];
    assert_eq!(double_area(&cw), -20_000);
}

#[test]
fn double_area_degenerate_contours() {
    assert_eq!(double_area(&vec![]), 0);
    assert_eq!(double_area(&vec![pt(5, 7)]), 0);
    assert_eq!(double_area(&vec![pt(0, 0), pt(100, 100)]), 0);
}

#[test]
fn filter_small_drops_slivers_and_keeps_order() {
    // 1 x 1 units: area 1 square unit, below the 50-square-unit floor.
    let tiny = square(0, 0, 100);
    // 10 x 10 units: area 100 square units, kept.
    let big_a = square(2000, 0, 1000);
    let big_b = square(5000, 5000, 1000);
    let set = vec![tiny.clone(), big_a.clone(), big_b.clone()];
    let kept = filter_small(&set, MIN_AREA2);
    assert_eq!(kept, vec![big_a, big_b]);
}

#[test]
fn filter_small_on_empty_set() {
    let kept = filter_small(&vec![], MIN_AREA2);
    assert_eq!(kept.len(), 0);
}

#[test]
fn filter_small_threshold_is_inclusive() {
    // Exactly 50 square units: doubled area 1_000_000, on the floor, kept.
    let c = vec![pt(0, 0), pt(1000, 0), pt(1000, 500), pt(0, 500)];
    assert_eq!(double_area(&c), 1_000_000);
    let kept = filter_small(&vec![c.clone()], MIN_AREA2);
    assert_eq!(kept, vec![c]);
}

#[test]
fn check_polys_accepts_bounded_and_rejects_oversized() {
    assert!(check_polys(&vec![square(0, 0, 1000)]));
    assert!(check_polys(&vec![]));
    let bad = vec![vec![pt(COORD_LIMIT + 1, 0), pt(0, 0), pt(0, 100)]];
    assert!(!check_polys(&bad));
}

#[test]
fn count_vertices_sums_all_contours() {
    let set = vec![square(0, 0, 100), vec![pt(0, 0), pt(1, 0), pt(1, 1)]];
    assert_eq!(count_vertices(&set), 7);
    assert_eq!(count_vertices(&vec![]), 0);
}

#[test]
fn reduction_permille_reports_only_shrinkage() {
    assert_eq!(reduction_permille(200, 50), Some(750));
    assert_eq!(reduction_permille(3, 2), Some(333));
    assert_eq!(reduction_permille(10, 10), None);
    assert_eq!(reduction_permille(5, 9), None);
    assert_eq!(reduction_permille(0, 0), None);
}
