use saas::entity::{Entity, Kind, PropKind};
use saas::grid::Grid;
use saas::props::PropManager;
use saas::snake::Snake;
use saas::state::GameState;
use saas::util::{Direction, Index2D, Timer};

/// A fully pinned game: known grid, one snake per given position and
/// direction, and a prop cadence too slow to interfere.
fn pinned_game(snakes: Vec<Snake>) -> GameState {
    let next_snake_id = snakes.len() as u64;
    GameState {
        grid: Grid::new(5, 5),
        prop_manager: PropManager::new(),
        prop_spawn_timer: Timer::new(1_000_000),
        snakes,
        next_prop_id: 0,
        next_snake_id,
    }
}

fn quiet_builder() -> saas::state::GameStateBuilder {
    // a spawn cadence too long to fire keeps props out of the way
    GameState::builder().with_prop_spawn_timer(Timer::new(1_000_000))
}

fn count_kind(gs: &GameState, kind: Kind) -> usize {
    let d = gs.get_grid_data();
    d.tags
        .iter()
        .flatten()
        .filter(|t| std::mem::discriminant(&t.kind) == std::mem::discriminant(&kind))
        .count()
}

#[test]
fn builder_defaults() {
    let gs = GameState::builder().build();
    let d = gs.get_grid_data();
    assert_eq!(d.rows, 16);
    assert_eq!(d.cols, 16);
    assert_eq!(d.tags.len(), 16);
    assert!(d.tags.iter().all(|row| row.len() == 16));
}

#[test]
fn builder_with_dimensions() {
    let gs = GameState::builder().with_dimensions(4, 9).build();
    let d = gs.get_grid_data();
    assert_eq!(d.rows, 4);
    assert_eq!(d.cols, 9);
}

#[test]
fn add_snake_hands_out_increasing_ids() {
    let mut gs = quiet_builder().build();
    assert_eq!(gs.add_snake(), Some(0));
    assert_eq!(gs.add_snake(), Some(1));
    assert_eq!(gs.add_snake(), Some(2));
}

#[test]
fn add_snake_fails_on_a_full_grid() {
    let mut gs = quiet_builder().with_dimensions(1, 1).build();
    assert_eq!(gs.add_snake(), Some(0));
    gs.tick();
    // the lone cell now holds the newcomer's invulnerable head
    assert_eq!(gs.add_snake(), None);
}

#[test]
fn scores_start_at_zero_and_unknown_ids_have_none() {
    let mut gs = quiet_builder().build();
    let id = gs.add_snake().unwrap();
    assert_eq!(gs.get_score(id), Some(0));
    assert_eq!(gs.get_score(id + 1), None);
}

#[test]
fn give_direction_to_unknown_id_fails_quietly() {
    let mut gs = quiet_builder().build();
    let id = gs.add_snake().unwrap();
    assert!(gs.give_direction(id, Direction::Up).is_ok());
    assert!(gs.give_direction(id + 7, Direction::Up).is_err());
}

#[test]
fn remove_snake_succeeds_once() {
    let mut gs = quiet_builder().build();
    let id = gs.add_snake().unwrap();
    assert!(gs.remove_snake(id).is_ok());
    assert!(gs.remove_snake(id).is_err());
    assert_eq!(gs.get_score(id), None);
}

#[test]
fn snake_appears_on_grid_after_first_tick() {
    let mut gs = quiet_builder().build();
    gs.add_snake().unwrap();
    assert_eq!(count_kind(&gs, Kind::SnakeHead), 0);
    gs.tick();
    assert_eq!(count_kind(&gs, Kind::SnakeHead), 1);
    assert_eq!(count_kind(&gs, Kind::SnakeBody), 0);
}

#[test]
fn lone_snake_occupancy_over_many_ticks() {
    let mut gs = quiet_builder().build();
    gs.add_snake().unwrap();
    for _ in 0..4 {
        gs.tick();
        assert_eq!(count_kind(&gs, Kind::SnakeHead), 1);
        assert_eq!(count_kind(&gs, Kind::SnakeBody), 0);
        assert_eq!(count_kind(&gs, Kind::Prop), 0);
    }
    // once mortal the snake drags a one-cell trail
    for _ in 0..20 {
        gs.tick();
        assert_eq!(count_kind(&gs, Kind::SnakeHead), 1);
        assert_eq!(count_kind(&gs, Kind::SnakeBody), 1);
    }
}

#[test]
fn props_spawn_on_cadence_and_expire() {
    let mut gs = GameState::builder()
        .with_dimensions(30, 30)
        .with_prop_spawn_timer(Timer::new(0))
        .build();
    // one prop per tick; each lives 20 lifetime ticks, the first of which
    // runs in its spawn tick
    for t in 1..=19 {
        gs.tick();
        assert_eq!(count_kind(&gs, Kind::Prop), t);
    }
    for _ in 20..=30 {
        gs.tick();
        assert_eq!(count_kind(&gs, Kind::Prop), 19);
    }
}

#[test]
fn game_data_hints_are_single_consume() {
    let mut gs = quiet_builder().build();
    let id = gs.add_snake().unwrap();
    gs.tick();
    let gd = gs.get_game_data();
    assert!(gd.came_from_heads.contains_key(&id));
    let gd2 = gs.get_game_data();
    assert!(!gd2.came_from_heads.contains_key(&id));
    assert_eq!(gd2.grid_data.rows, 16);
}

#[test]
fn scores_survive_ticks() {
    let mut gs = quiet_builder().build();
    let id = gs.add_snake().unwrap();
    for _ in 0..12 {
        gs.tick();
    }
    assert_eq!(gs.get_score(id), Some(0));
}

#[test]
fn spawn_snake_picks_a_vacant_cell() {
    let mut g = Grid::new(2, 2);
    for (i, j) in [(0, 0), (0, 1), (1, 1)] {
        g.add(Index2D::new(i, j), Entity::SnakeBody(0));
    }
    let sn = GameState::spawn_snake(&g, 7).unwrap();
    assert_eq!(sn.id, 7);
    assert_eq!(sn.pos.get(), (1, 0));
    assert_eq!(sn.score, 0);
    assert!(!sn.is_dead);
    assert_eq!(sn.body.len(), 0);

    g.add(Index2D::new(1, 0), Entity::SnakeBody(0));
    assert!(GameState::spawn_snake(&g, 8).is_none());
}

#[test]
fn fresh_snake_has_a_full_spawn_window() {
    let sn = Snake::new(3, Index2D::new(0, 0));
    assert_eq!(sn.id, 3);
    assert!(!sn.is_mortal());
    assert!(!sn.should_spawn());
    assert_eq!(sn.spawn_timer, Timer { elapsed: 0, limit: 5 });
    assert!(sn.death_timer.is_none());
}

#[test]
fn grow_prop_scenario_through_the_orchestrator() {
    let mut gs = pinned_game(vec![Snake::new_at(0, Index2D::new(2, 2), Direction::Right)]);
    for _ in 0..5 {
        gs.tick();
    }
    // after its five-tick immortal window the snake is mortal, one trail
    // cell behind its head
    assert!(gs.snakes[0].is_mortal());
    assert_eq!(gs.snakes[0].pos.get(), (2, 3));
    assert_eq!(gs.snakes[0].body.len(), 1);

    gs.grid.add(Index2D::new(2, 4), Entity::Prop(9, PropKind::GrowFood));
    gs.tick();
    assert_eq!(gs.get_score(0), Some(1));
    assert_eq!(gs.snakes[0].grow_count, Some(1));
    assert!(!gs.snakes[0].is_dead);

    gs.tick();
    assert_eq!(gs.snakes[0].body.len(), 2);
}

#[test]
fn bad_prop_scenario_through_the_orchestrator() {
    let mut gs = pinned_game(vec![Snake::new_at(0, Index2D::new(2, 2), Direction::Right)]);
    for _ in 0..5 {
        gs.tick();
    }
    gs.grid.add(Index2D::new(2, 4), Entity::Prop(9, PropKind::BadFood));
    gs.tick();
    assert!(gs.snakes[0].is_dead);
    // the contested cell ends empty
    let d = gs.get_grid_data();
    assert!(matches!(d.tags[2][4].kind, Kind::Empty));
}

#[test]
fn converging_heads_die_and_respawn_in_place() {
    let mut gs = pinned_game(vec![
        Snake::new_at(0, Index2D::new(2, 1), Direction::Right),
        Snake::new_at(1, Index2D::new(2, 3), Direction::Left),
    ]);
    for _ in 0..4 {
        gs.tick();
    }
    assert!(!gs.snakes[0].is_dead && !gs.snakes[1].is_dead);

    // on the fifth tick both turn mortal and step onto the cell between
    gs.tick();
    assert!(gs.snakes[0].is_dead && gs.snakes[1].is_dead);
    let d = gs.get_grid_data();
    assert!(matches!(d.tags[2][2].kind, Kind::Empty));

    // body length was 1 at death: exactly two more ticks to respawn
    gs.tick();
    assert!(gs.snakes[0].is_dead && gs.snakes[1].is_dead);
    gs.tick();
    assert!(!gs.snakes[0].is_dead && !gs.snakes[1].is_dead);
    // same ids, scores kept, fresh invulnerability window
    assert_eq!(gs.snakes[0].id, 0);
    assert_eq!(gs.snakes[1].id, 1);
    assert_eq!(gs.get_score(0), Some(0));
    assert_eq!(gs.get_score(1), Some(0));
    assert!(!gs.snakes[0].is_mortal() && !gs.snakes[1].is_mortal());
    assert_eq!(gs.snakes[0].body.len(), 0);
}
