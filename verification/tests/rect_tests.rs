use rect::{InteriorIter, Point, Rect};

fn collect_cells(mut it: InteriorIter) -> Vec<Point> {
    let mut got = Vec::new();
    while let Some(p) = it.next() {
        got.push(p);
    }
    got
}

#[test]
fn cells_test() {
    let test_rect = Rect::new(1, 2, 3, 4);
    let mut expected = Vec::new();

    for y in (test_rect.bottom()..=test_rect.top).rev() {
        for x in test_rect.left..=test_rect.right() {
            expected.push(Point::new(x, y));
        }
    }

    assert_eq!(expected, collect_cells(test_rect.cells()));
}

#[test]
fn right_and_bottom() {
    let rect = Rect::new(1, 1, 4, 3);
    assert_eq!(rect.right(), 4);
    assert_eq!(rect.bottom(), -1);
    // The derived bounds agree with the stored sizes.
    assert_eq!(rect.right() - rect.left + 1, rect.wid);
    assert_eq!(rect.top - rect.bottom() + 1, rect.hgt);
}

#[test]
fn overlaps_cases() {
    let rect1 = Rect::new(0, 7, 4, 3);
    let rect2 = Rect::new(3, 6, 5, 5);
    let rect3 = Rect::new(10, 2, 3, 3);

    assert!(rect1.overlaps(&rect2));
    assert!(rect2.overlaps(&rect1));
    assert!(!rect3.overlaps(&rect1));
    assert!(!rect1.overlaps(&rect3));
    assert!(!rect3.overlaps(&rect2));
    assert!(!rect2.overlaps(&rect3));
}

#[test]
fn corners_case() {
    let rect = Rect::new(1, 1, 3, 5);
    let expected = vec![
        Point::new(1, 1),
        Point::new(3, 1),
        Point::new(1, -3),
        Point::new(3, -3),
    ];
    assert_eq!(rect.corners(), expected);
}

#[test]
fn expand_grows_rightward() {
    let mut rect = Rect::new(1, 1, 3, 5);
    rect.expand(Point::new(1, 0));
    assert_eq!(rect, Rect::new(1, 1, 4, 5));
}

#[test]
fn expand_anchors_right_and_bottom() {
    // Growing leftward keeps the right edge; growing upward keeps the
    // bottom edge.
    let mut rect = Rect::new(4, 1, 2, 3);
    let right_before = rect.right();
    let bottom_before = rect.bottom();
    rect.expand(Point::new(-2, 3));
    assert_eq!(rect, Rect::new(2, 4, 4, 6));
    assert_eq!(rect.right(), right_before);
    assert_eq!(rect.bottom(), bottom_before);
}

#[test]
fn area_case() {
    let rect = Rect::new(0, 5, 3, 5);
    assert_eq!(rect.area(), 15);
}

#[test]
fn area_of_negative_size_is_absolute() {
    assert_eq!(Rect::new(0, 0, -3, 5).area(), 15);
    assert_eq!(Rect::new(0, 0, 3, -5).area(), 15);
}

#[test]
fn cells_count_matches_size() {
    let rect = Rect::new(1, 2, 3, 4);
    assert_eq!(collect_cells(rect.cells()).len(), 12);
}

#[test]
fn cells_of_degenerate_rect_is_empty() {
    assert!(collect_cells(Rect::new(0, 0, 0, 3).cells()).is_empty());
    assert!(collect_cells(Rect::new(0, 0, 3, -1).cells()).is_empty());
}

#[test]
fn cells_stays_exhausted() {
    let mut it = Rect::new(0, 0, 1, 1).cells();
    assert_eq!(it.next(), Some(Point::new(0, 0)));
    assert_eq!(it.next(), None);
    assert_eq!(it.next(), None);
}

#[test]
fn contains_cases() {
    let rect = Rect::new(0, 0, 3, 5);
    assert!(rect.contains(Point::new(1, -3)));
    assert!(rect.contains(Point::new(1, 0)));
    assert!(!rect.contains(Point::new(-1, 0)));
    assert!(rect.contains(rect.top_left()));
}

#[test]
fn top_left_case() {
    let rect = Rect::new(2, 1, 4, 3);
    assert_eq!(rect.top_left(), Point::new(2, 1));
}

#[test]
fn move_to_case() {
    let mut rect = Rect::new(1, 2, 3, 4);
    rect.move_to(Point::new(-5, 9));
    assert_eq!(rect, Rect::new(-5, 9, 3, 4));
}

#[test]
fn centre_on_case() {
    let mut rect = Rect::new(0, 4, 4, 4);
    rect.centre_on(Point::new(4, 4));
    assert_eq!(rect.top_left(), Point::new(2, 6));
}

#[test]
fn centre_on_odd_sizes_bias_right_and_below() {
    // With an odd width and height the centre cannot be hit exactly:
    // the cell just right of and below the requested position becomes
    // the centre cell.
    let mut rect = Rect::new(0, 0, 3, 3);
    rect.centre_on(Point::new(10, 10));
    assert_eq!(rect, Rect::new(9, 11, 3, 3));
}

#[test]
fn inner_cells_of_three_by_three() {
    let rect = Rect::new(0, 2, 3, 3);
    assert_eq!(collect_cells(rect.inner_cells()), vec![Point::new(1, 1)]);
}

#[test]
fn inner_cells_of_thin_rect_is_empty() {
    assert!(collect_cells(Rect::new(0, 0, 2, 5).inner_cells()).is_empty());
    assert!(collect_cells(Rect::new(0, 0, 5, 2).inner_cells()).is_empty());
}

#[test]
fn cells_traversal_order() {
    // Top row first, left to right within a row, then on down.
    let rect = Rect::new(0, 1, 2, 2);
    let expected = vec![
        Point::new(0, 1),
        Point::new(1, 1),
        Point::new(0, 0),
        Point::new(1, 0),
    ];
    assert_eq!(collect_cells(rect.cells()), expected);
}

#[test]
fn edges_emission_order() {
    let rect = Rect::new(0, 2, 3, 3);
    let expected = vec![
        // Horizontal pass: top and bottom cell of each column.
        Point::new(0, 2),
        Point::new(0, 0),
        Point::new(1, 2),
        Point::new(1, 0),
        Point::new(2, 2),
        Point::new(2, 0),
        // Vertical pass: left and right cell of each strictly interior row.
        Point::new(0, 1),
        Point::new(2, 1),
    ];
    assert_eq!(rect.edges(), expected);
}

#[test]
fn edges_of_flat_rect_doubles_corners() {
    // With a single row the top and bottom cells coincide, so the
    // horizontal pass emits every cell twice.
    let rect = Rect::new(0, 0, 2, 1);
    let expected = vec![
        Point::new(0, 0),
        Point::new(0, 0),
        Point::new(1, 0),
        Point::new(1, 0),
    ];
    assert_eq!(rect.edges(), expected);
}

#[test]
fn iter_from_rect_starts_at_top_left() {
    let mut it = InteriorIter::from(Rect::new(3, 7, 2, 2));
    assert_eq!(it.next(), Some(Point::new(3, 7)));
}
