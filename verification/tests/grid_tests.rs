use saas::entity::{Entity, Kind};
use saas::grid::Grid;
use saas::util::Index2D;

#[test]
fn new_grid_is_empty() {
    let g = Grid::new(3, 4);
    assert_eq!(g.rows(), 3);
    assert_eq!(g.cols(), 4);
    for i in 0..3 {
        for j in 0..4 {
            assert_eq!(g.get(Index2D::new(i, j)), None);
        }
    }
}

#[test]
fn add_overwrites_and_remove_vacates() {
    let mut g = Grid::new(3, 3);
    let p = Index2D::new(1, 2);
    g.add(p, Entity::SnakeBody(1));
    assert_eq!(g.get(p), Some(Entity::SnakeBody(1)));
    g.add(p, Entity::SnakeHead(2));
    assert_eq!(g.get(p), Some(Entity::SnakeHead(2)));
    g.remove(p);
    assert_eq!(g.get(p), None);
}

#[test]
fn next_vacant_from_origin_is_origin_on_empty_grid() {
    let g = Grid::new(3, 3);
    let v = g.index_of_next_vacant(Index2D::new(0, 0)).unwrap();
    assert_eq!(v.get(), (0, 0));
}

#[test]
fn next_vacant_skips_occupied_cells() {
    let mut g = Grid::new(2, 2);
    g.add(Index2D::new(0, 0), Entity::SnakeBody(0));
    g.add(Index2D::new(0, 1), Entity::SnakeBody(0));
    let v = g.index_of_next_vacant(Index2D::new(0, 0)).unwrap();
    assert_eq!(v.get(), (1, 0));
}

#[test]
fn next_vacant_scans_the_corner_rectangle_first() {
    // from (1, 1) the scan covers the rectangle [1.., 1..] before wrapping
    // to the origin, so (1, 2) beats the earlier-in-row-major (2, 0)
    let mut g = Grid::new(3, 3);
    for (i, j) in [(0, 0), (0, 1), (0, 2), (1, 0), (1, 1), (2, 1), (2, 2)] {
        g.add(Index2D::new(i, j), Entity::SnakeBody(0));
    }
    // vacant: (1, 2) and (2, 0)
    let v = g.index_of_next_vacant(Index2D::new(1, 1)).unwrap();
    assert_eq!(v.get(), (1, 2));
}

#[test]
fn next_vacant_wraps_to_origin_when_rectangle_is_full() {
    // only (2, 0) is vacant; it sits outside the [1.., 1..] rectangle, so
    // the second, full scan finds it
    let mut g = Grid::new(3, 3);
    for i in 0..3 {
        for j in 0..3 {
            if (i, j) != (2, 0) {
                g.add(Index2D::new(i, j), Entity::SnakeBody(0));
            }
        }
    }
    let v = g.index_of_next_vacant(Index2D::new(1, 1)).unwrap();
    assert_eq!(v.get(), (2, 0));
}

#[test]
fn next_vacant_on_full_grid_is_none() {
    let mut g = Grid::new(2, 2);
    for i in 0..2 {
        for j in 0..2 {
            g.add(Index2D::new(i, j), Entity::SnakeBody(0));
        }
    }
    assert!(g.index_of_next_vacant(Index2D::new(1, 1)).is_none());
    assert!(g.index_of_rand_vacant().is_none());
}

#[test]
fn rand_vacant_finds_the_single_hole() {
    let mut g = Grid::new(2, 2);
    for (i, j) in [(0, 0), (0, 1), (1, 1)] {
        g.add(Index2D::new(i, j), Entity::SnakeBody(0));
    }
    for _ in 0..20 {
        let v = g.index_of_rand_vacant().unwrap();
        assert_eq!(v.get(), (1, 0));
    }
}

#[test]
fn data_projects_tags_per_cell() {
    let mut g = Grid::new(2, 3);
    g.add(Index2D::new(0, 1), Entity::SnakeHead(7));
    g.add(Index2D::new(1, 2), Entity::SnakeBody(7));
    let d = g.data();
    assert_eq!(d.rows, 2);
    assert_eq!(d.cols, 3);
    assert!(matches!(d.tags[0][0].kind, Kind::Empty));
    assert!(matches!(d.tags[0][1].kind, Kind::SnakeHead));
    assert_eq!(d.tags[0][1].id, 7);
    assert!(matches!(d.tags[1][2].kind, Kind::SnakeBody));
    assert!(matches!(d.tags[1][0].kind, Kind::Empty));
}
