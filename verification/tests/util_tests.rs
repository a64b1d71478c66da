use saas::util::{wrap, Direction, Index2D, Timer};

#[test]
fn timer_counts_down_exactly() {
    let mut t = Timer::new(3);
    assert!(!t.is_done());
    t.tick();
    assert!(!t.is_done());
    t.tick();
    assert!(!t.is_done());
    t.tick();
    assert!(t.is_done());
}

#[test]
fn timer_stays_done_and_resets() {
    let mut t = Timer::new(2);
    t.tick();
    t.tick();
    t.tick();
    t.tick();
    assert!(t.is_done());
    t.reset();
    assert!(!t.is_done());
    t.tick();
    t.tick();
    assert!(t.is_done());
}

#[test]
fn timer_zero_limit_is_done_at_once() {
    let t = Timer::new(0);
    assert!(t.is_done());
}

#[test]
fn wrap_below_low_edge() {
    assert_eq!(wrap(-1, 0, 5), 4);
}

#[test]
fn wrap_at_high_edge() {
    assert_eq!(wrap(5, 0, 5), 0);
}

#[test]
fn wrap_inside_range_is_identity() {
    assert_eq!(wrap(3, 0, 5), 3);
    assert_eq!(wrap(0, 0, 5), 0);
    assert_eq!(wrap(4, 0, 5), 4);
}

#[test]
fn neighbor_steps_one_cell() {
    let p = Index2D::new(2, 2);
    assert_eq!(p.neighbor(&Direction::Up).get(), (1, 2));
    assert_eq!(p.neighbor(&Direction::Down).get(), (3, 2));
    assert_eq!(p.neighbor(&Direction::Left).get(), (2, 1));
    assert_eq!(p.neighbor(&Direction::Right).get(), (2, 3));
}

#[test]
fn toroidal_wrap_off_each_edge() {
    let rows = 4;
    let cols = 6;
    let top = Index2D::new(0, 3);
    assert_eq!(top.neighbor(&Direction::Up).wrap((0, rows), (0, cols)).get(), (3, 3));
    let bottom = Index2D::new(3, 3);
    assert_eq!(bottom.neighbor(&Direction::Down).wrap((0, rows), (0, cols)).get(), (0, 3));
    let left = Index2D::new(2, 0);
    assert_eq!(left.neighbor(&Direction::Left).wrap((0, rows), (0, cols)).get(), (2, 5));
    let right = Index2D::new(2, 5);
    assert_eq!(right.neighbor(&Direction::Right).wrap((0, rows), (0, cols)).get(), (2, 0));
}

#[test]
fn direction_of_draw_covers_all_four() {
    assert!(matches!(Direction::of_draw(0), Direction::Up));
    assert!(matches!(Direction::of_draw(1), Direction::Down));
    assert!(matches!(Direction::of_draw(2), Direction::Left));
    assert!(matches!(Direction::of_draw(3), Direction::Right));
    assert!(matches!(Direction::of_draw(7), Direction::Right));
}

#[test]
fn rand_in_range_stays_in_range() {
    for _ in 0..100 {
        let p = Index2D::rand_in_range((0, 7), (2, 5));
        let (i, j) = p.get();
        assert!(i < 7);
        assert!((2..7).contains(&j));
    }
}

#[test]
fn rand_direction_is_one_of_four() {
    for _ in 0..20 {
        let d = Direction::rand();
        assert!(matches!(
            d,
            Direction::Up | Direction::Down | Direction::Left | Direction::Right
        ));
    }
}
