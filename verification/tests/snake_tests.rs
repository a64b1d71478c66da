use saas::entity::{Cmd, Entity, PropKind};
use saas::grid::Grid;
use saas::snake::{CameFrom, Snake};
use saas::util::{Direction, Index2D};

/// Drive one snake through one full simulation step the way the
/// orchestrator does: timers, movement, then collision resolution against
/// whatever occupies the destination cell, with the emitted events applied
/// back to the snake.
fn step(sn: &mut Snake, grid: &mut Grid) {
    sn.tick(grid);
    if !sn.is_dead {
        sn.remove_head(grid);
        sn.move_body(grid);
        sn.tick_head(grid);
    }
    if sn.is_mortal() {
        let mut ens = vec![Entity::SnakeHead(sn.id)];
        if let Some(e) = grid.get(sn.pos) {
            ens.push(e);
            grid.remove(sn.pos);
        }
        let (en, _pevs, sevs) = Entity::collide_many(ens).unwrap();
        match en {
            Some(e) => grid.add(sn.pos, e),
            None => grid.remove(sn.pos),
        }
        for ev in sevs {
            assert_eq!(ev.id, sn.id);
            match ev.cmd {
                Cmd::Kill => sn.kill(),
                Cmd::Grow(n) => sn.grow(n),
                Cmd::GiveScore(d) => sn.give_score(d),
            }
        }
    }
}

fn count_occupied(grid: &Grid) -> usize {
    let d = grid.data();
    d.tags
        .iter()
        .flatten()
        .filter(|t| !matches!(t.kind, saas::entity::Kind::Empty))
        .count()
}

#[test]
fn score_floor_never_negative() {
    let mut sn = Snake::new_at(0, Index2D::new(1, 1), Direction::Right);
    sn.give_score(-5);
    assert_eq!(sn.score, 0);
    sn.give_score(3);
    assert_eq!(sn.score, 3);
    sn.give_score(-2);
    assert_eq!(sn.score, 1);
    sn.give_score(-2);
    assert_eq!(sn.score, 0);
    sn.give_score(i32::MIN);
    assert_eq!(sn.score, 0);
}

#[test]
fn grow_accumulates() {
    let mut sn = Snake::new_at(0, Index2D::new(1, 1), Direction::Right);
    // a fresh snake already queues one unit
    assert_eq!(sn.grow_count, Some(1));
    sn.grow(2);
    assert_eq!(sn.grow_count, Some(3));
}

#[test]
fn spawn_window_then_mortal() {
    let mut grid = Grid::new(8, 8);
    let mut sn = Snake::new_at(0, Index2D::new(4, 4), Direction::Right);
    for k in 1..=4 {
        step(&mut sn, &mut grid);
        assert!(!sn.is_mortal(), "still immortal after tick {}", k);
        // an immortal head occupies its cell and grows no trail
        assert_eq!(
            grid.get(Index2D::new(4, 4)),
            Some(Entity::ImmortalSnakeHead(0))
        );
        assert_eq!(sn.body.len(), 0);
        assert_eq!(count_occupied(&grid), 1);
    }
    step(&mut sn, &mut grid);
    assert!(sn.is_mortal());
    // the fresh-spawn growth unit turned the old head cell into trail
    assert_eq!(sn.body.len(), 1);
    assert_eq!(sn.pos.get(), (4, 5));
    assert_eq!(grid.get(Index2D::new(4, 4)), Some(Entity::SnakeBody(0)));
    assert_eq!(grid.get(Index2D::new(4, 5)), Some(Entity::SnakeHead(0)));
    assert_eq!(count_occupied(&grid), 2);
}

#[test]
fn occupancy_matches_bookkeeping_while_moving() {
    let mut grid = Grid::new(8, 8);
    let mut sn = Snake::new_at(0, Index2D::new(4, 4), Direction::Right);
    for _ in 0..5 {
        step(&mut sn, &mut grid);
    }
    for _ in 0..10 {
        step(&mut sn, &mut grid);
        // one mortal head plus the trail cells, nothing else
        assert_eq!(count_occupied(&grid), 1 + sn.body.len());
        assert_eq!(sn.body.len(), 1);
    }
}

#[test]
fn direction_buffer_applies_perpendicular_next_tick() {
    let mut grid = Grid::new(8, 8);
    let mut sn = Snake::new_at(0, Index2D::new(4, 4), Direction::Right);
    for _ in 0..5 {
        step(&mut sn, &mut grid);
    }
    assert_eq!(sn.pos.get(), (4, 5));
    sn.give_direction(Direction::Up);
    assert_eq!(sn.next_dir, Some(Direction::Up));
    assert!(matches!(sn.curr_dir, Direction::Right));
    step(&mut sn, &mut grid);
    assert!(matches!(sn.curr_dir, Direction::Up));
    assert_eq!(sn.pos.get(), (3, 5));
}

#[test]
fn reversal_request_is_ignored() {
    let mut grid = Grid::new(8, 8);
    let mut sn = Snake::new_at(0, Index2D::new(4, 4), Direction::Right);
    for _ in 0..5 {
        step(&mut sn, &mut grid);
    }
    sn.give_direction(Direction::Left);
    step(&mut sn, &mut grid);
    assert!(matches!(sn.curr_dir, Direction::Right));
    assert_eq!(sn.pos.get(), (4, 6));
    assert_eq!(sn.next_dir, None);
}

#[test]
fn immortal_snake_turns_immediately() {
    let mut sn = Snake::new_at(0, Index2D::new(4, 4), Direction::Right);
    sn.give_direction(Direction::Left);
    assert!(matches!(sn.curr_dir, Direction::Left));
    assert_eq!(sn.next_dir, None);
}

#[test]
fn head_wraps_around_the_torus() {
    let mut grid = Grid::new(5, 5);
    let mut sn = Snake::new_at(0, Index2D::new(0, 2), Direction::Up);
    for _ in 0..5 {
        step(&mut sn, &mut grid);
    }
    // mortal move went up from row 0 and reappeared on the last row
    assert_eq!(sn.pos.get(), (4, 2));
}

#[test]
fn eating_grow_prop_scores_and_grows() {
    let mut grid = Grid::new(5, 5);
    let mut sn = Snake::new_at(0, Index2D::new(2, 2), Direction::Right);
    for _ in 0..5 {
        step(&mut sn, &mut grid);
    }
    assert_eq!(sn.pos.get(), (2, 3));
    assert_eq!(sn.body.len(), 1);
    grid.add(Index2D::new(2, 4), Entity::Prop(11, PropKind::GrowFood));
    step(&mut sn, &mut grid);
    assert_eq!(sn.score, 1);
    assert_eq!(sn.grow_count, Some(1));
    assert!(!sn.is_dead);
    step(&mut sn, &mut grid);
    assert_eq!(sn.body.len(), 2);
}

#[test]
fn eating_bad_prop_kills() {
    let mut grid = Grid::new(5, 5);
    let mut sn = Snake::new_at(0, Index2D::new(2, 2), Direction::Right);
    for _ in 0..5 {
        step(&mut sn, &mut grid);
    }
    grid.add(Index2D::new(2, 4), Entity::Prop(11, PropKind::BadFood));
    step(&mut sn, &mut grid);
    assert!(sn.is_dead);
    assert!(!sn.is_mortal());
}

#[test]
fn death_countdown_takes_body_length_plus_one_ticks() {
    let mut grid = Grid::new(8, 8);
    let mut sn = Snake::new_at(0, Index2D::new(4, 4), Direction::Right);
    for _ in 0..5 {
        step(&mut sn, &mut grid);
    }
    sn.grow(2);
    step(&mut sn, &mut grid);
    step(&mut sn, &mut grid);
    let body_len = sn.body.len();
    assert_eq!(body_len, 3);
    sn.kill();
    for k in 1..=body_len {
        step(&mut sn, &mut grid);
        assert!(!sn.should_spawn(), "countdown ended early at tick {}", k);
    }
    step(&mut sn, &mut grid);
    assert!(sn.should_spawn());
}

#[test]
fn dying_snake_sheds_one_tail_cell_per_tick() {
    let mut grid = Grid::new(8, 8);
    let mut sn = Snake::new_at(0, Index2D::new(4, 4), Direction::Right);
    for _ in 0..5 {
        step(&mut sn, &mut grid);
    }
    sn.grow(2);
    step(&mut sn, &mut grid);
    step(&mut sn, &mut grid);
    assert_eq!(sn.body.len(), 3);
    sn.kill();
    step(&mut sn, &mut grid);
    assert_eq!(sn.body.len(), 2);
    step(&mut sn, &mut grid);
    assert_eq!(sn.body.len(), 1);
    step(&mut sn, &mut grid);
    assert_eq!(sn.body.len(), 0);
    // the final shed cell leaves a dummy hint for the renderer
    assert!(matches!(sn.came_from_tail, Some(CameFrom::Dummy(_))));
}

#[test]
fn remove_vacates_the_whole_trail() {
    let mut grid = Grid::new(8, 8);
    let mut sn = Snake::new_at(0, Index2D::new(4, 4), Direction::Right);
    for _ in 0..5 {
        step(&mut sn, &mut grid);
    }
    sn.grow(3);
    for _ in 0..3 {
        step(&mut sn, &mut grid);
    }
    assert_eq!(sn.body.len(), 4);
    sn.remove(&mut grid);
    assert_eq!(sn.body.len(), 0);
    // only the head cell remains occupied
    assert_eq!(count_occupied(&grid), 1);
}
