use rogue_hunter::geometry::{line_between, Direction, Point};

#[test]
fn distance_is_chebyshev() {
    assert_eq!(Point::new(0, 0).distance(Point::new(3, 1)), 3);
    assert_eq!(Point::new(5, 5).distance(Point::new(5, 5)), 0);
}

#[test]
fn orthogonal_first_lists_all_orthogonals_before_diagonals() {
    // The pathfinding tie-break depends on every orthogonal direction coming
    // before any diagonal in this order.
    let is_diagonal = |dir: Direction| dir.delta().0 != 0 && dir.delta().1 != 0;
    let first_diagonal = Direction::ORTHOGONAL_FIRST.iter().position(|d| is_diagonal(*d)).unwrap();
    assert_eq!(first_diagonal, 4, "four orthogonals should come first");
    // Same eight directions, just reordered.
    let mut a = Direction::ALL;
    let mut b = Direction::ORTHOGONAL_FIRST;
    a.sort_by_key(|d| d.delta());
    b.sort_by_key(|d| d.delta());
    assert_eq!(a, b);
}

#[test]
fn line_between_is_symmetric() {
    let a = Point::new(1, 1);
    let b = Point::new(7, 4);
    assert_eq!(line_between(a, b), line_between(b, a));
}

#[test]
fn line_between_excludes_endpoints() {
    let a = Point::new(0, 0);
    let b = Point::new(3, 0);
    let line = line_between(a, b);
    assert_eq!(line, vec![Point::new(1, 0), Point::new(2, 0)]);
}

#[test]
fn adjacent_line_is_empty() {
    assert!(line_between(Point::new(2, 2), Point::new(3, 3)).is_empty());
}

#[test]
fn a_diagonal_line_walks_the_diagonal() {
    assert_eq!(line_between(Point::new(0, 0), Point::new(3, 3)), vec![Point::new(1, 1), Point::new(2, 2)]);
    assert!(line_between(Point::new(4, 4), Point::new(4, 4)).is_empty());
}

#[test]
fn toward_points_at_the_target() {
    assert_eq!(Direction::toward(Point::new(2, 2), Point::new(5, 2)), Some(Direction::East));
    assert_eq!(Direction::toward(Point::new(2, 2), Point::new(0, 0)), Some(Direction::NorthWest));
    assert_eq!(Direction::toward(Point::new(2, 2), Point::new(2, 9)), Some(Direction::South));
    assert_eq!(Direction::toward(Point::new(2, 2), Point::new(2, 2)), None);
}

#[test]
fn steps_and_neighbours_follow_the_deltas() {
    let p = Point::new(4, 4);
    assert_eq!(p.step(Direction::North), Point::new(4, 3));
    assert_eq!(p.step(Direction::SouthEast), Point::new(5, 5));
    let around = p.neighbours();
    assert_eq!(around.len(), 8);
    assert_eq!(around[0], Point::new(4, 3));
    assert!(around.iter().all(|q| q.is_adjacent(p)));
    assert!(!p.is_adjacent(p));
}

#[test]
fn bounds_are_the_thirty_two_by_twenty_grid() {
    assert!(Point::new(0, 0).in_bounds());
    assert!(Point::new(31, 19).in_bounds());
    assert!(!Point::new(32, 0).in_bounds());
    assert!(!Point::new(0, -1).in_bounds());
}

#[test]
fn a_line_has_one_tile_fewer_than_the_distance() {
    let a = Point::new(0, 0);
    let b = Point::new(7, 3);
    let line = line_between(a, b);
    assert_eq!(line.len(), 6);
    let mut path = vec![a];
    path.extend(line.iter().copied());
    path.push(b);
    for pair in path.windows(2) {
        assert!(pair[0].is_adjacent(pair[1]));
    }
}

#[test]
fn a_long_line_across_the_sixteen_bit_range_is_walked() {
    let a = Point::new(-8000, 0);
    let b = Point::new(8000, 3);
    let line = line_between(a, b);
    assert_eq!(line.len(), 15999);
    assert_eq!(line, line_between(b, a));
}

#[test]
fn a_step_back_from_the_lowest_coordinate_is_allowed() {
    let p = Point::new(i16::MIN, i16::MIN);
    assert_eq!(p.step(Direction::SouthEast), Point::new(i16::MIN + 1, i16::MIN + 1));
    assert_eq!(Direction::toward(Point::new(i16::MAX, 0), Point::new(-1, 0)), Some(Direction::West));
}
