//! The tick orchestrator: owns the grid, the snakes and the prop manager,
//! and advances the whole simulation one deterministic step per call.

use vstd::prelude::*;

use std::collections::HashMap;

use crate::entity::{Cmd, Entity, PropEvent, PropID, SnakeEvent, SnakeID};
use crate::grid::{Grid, GridData};
use crate::props::{food_spawner, PropManager};
use crate::snake::{CameFrom, Snake};
use crate::util::Timer;

verus! {

/// The default number of rows and columns of a new game.
pub const DEFAULT_DIMENSION: usize = 16;

/// The default number of ticks between prop spawns.
pub const DEFAULT_PROP_SPAWN_LIMIT: usize = 5;

/// The per-tick snapshot handed to consumers: the grid projection plus the
/// single-consume animation hints collected from every snake.
#[derive(Debug)]
pub struct GameData {
    pub came_from_heads: HashMap<SnakeID, CameFrom>,
    pub came_from_tails: HashMap<SnakeID, CameFrom>,
    pub grid_data: GridData,
}

/// Ids strictly increase along the roster, so each id appears at most once.
pub open spec fn spec_ids_sorted(snakes: Seq<Snake>) -> bool {
    forall|k1: int, k2: int|
        0 <= k1 < k2 < snakes.len() ==> #[trigger] snakes[k1].id < #[trigger] snakes[k2].id
}

pub open spec fn spec_has_id(snakes: Seq<Snake>, id: SnakeID) -> bool {
    exists|k: int| 0 <= k < snakes.len() && (#[trigger] snakes[k]).id == id
}

/// The roster index carrying `id`; meaningful only when `spec_has_id`.
pub open spec fn spec_idx_of(snakes: Seq<Snake>, id: SnakeID) -> int {
    choose|k: int| 0 <= k < snakes.len() && (#[trigger] snakes[k]).id == id
}

/// The effect of one command on one snake; an out-of-range growth count
/// (which no resolver emits) does nothing.
pub open spec fn spec_apply_cmd(s: Snake, cmd: Cmd) -> Snake {
    match cmd {
        Cmd::Kill => s.spec_killed(),
        Cmd::GiveScore(d) => s.spec_scored(d as int),
        Cmd::Grow(n) => if n >= 1 {
            s.spec_grown(n as int)
        } else {
            s
        },
    }
}

/// The roster after one event: the targeted snake is transformed, an
/// unknown id is ignored.
pub open spec fn spec_apply_event(snakes: Seq<Snake>, ev: SnakeEvent) -> Seq<Snake> {
    if spec_has_id(snakes, ev.id) {
        let k = spec_idx_of(snakes, ev.id);
        snakes.update(k, spec_apply_cmd(snakes[k], ev.cmd))
    } else {
        snakes
    }
}

/// The roster after a list of events, applied in order.
pub open spec fn spec_apply_events(snakes: Seq<Snake>, evs: Seq<SnakeEvent>) -> Seq<Snake>
    decreases evs.len(),
{
    if evs.len() == 0 {
        snakes
    } else {
        spec_apply_events(spec_apply_event(snakes, evs[0]), evs.subrange(1, evs.len() as int))
    }
}

/// The prop records left after a list of removal events, applied in order.
pub open spec fn spec_apply_prop_events(
    props: Seq<crate::props::PropRecord>,
    evs: Seq<PropEvent>,
) -> Seq<crate::props::PropRecord>
    decreases evs.len(),
{
    if evs.len() == 0 {
        props
    } else {
        spec_apply_prop_events(
            match evs[0] {
                PropEvent::Remove(id) => crate::props::spec_without_id(props, id),
            },
            evs.subrange(1, evs.len() as int),
        )
    }
}

/// A command changes a snake's score, growth or death bookkeeping, never
/// its id or its cells, so well-formedness survives it.
pub proof fn lemma_apply_cmd_wf(s: Snake, cmd: Cmd, rows: int, cols: int)
    requires
        s.wf(rows, cols),
    ensures
        spec_apply_cmd(s, cmd).wf(rows, cols),
        spec_apply_cmd(s, cmd).id == s.id,
{
}

/// A kill event sticks for the rest of the list: once a kill aimed at a
/// snake's id is in the list, the snake ends dead with a freshly armed,
/// incomplete countdown; and a snake no kill targets keeps its life and
/// countdown state through every event.
pub proof fn lemma_kill_events_stick(snakes: Seq<Snake>, evs: Seq<SnakeEvent>)
    requires
        spec_ids_sorted(snakes),
    ensures
        spec_apply_events(snakes, evs).len() == snakes.len(),
        forall|k: int|
            0 <= k < snakes.len() && !evs.contains(crate::entity::kill_ev(snakes[k].id)) ==> (
            #[trigger] spec_apply_events(snakes, evs)[k]).is_dead == snakes[k].is_dead && spec_apply_events(
                snakes,
                evs,
            )[k].death_timer == snakes[k].death_timer,
        forall|k: int|
            0 <= k < snakes.len() && evs.contains(crate::entity::kill_ev(snakes[k].id)) ==> (
            #[trigger] spec_apply_events(snakes, evs)[k]).is_dead && match spec_apply_events(
                snakes,
                evs,
            )[k].death_timer {
                Some(t) => !t.spec_is_done(),
                None => false,
            },
    decreases evs.len(),
{
    if evs.len() > 0 {
        let ev = evs[0];
        let snakes1 = spec_apply_event(snakes, ev);
        let rest = evs.subrange(1, evs.len() as int);

        assert forall|k: int| 0 <= k < snakes.len() implies (#[trigger] snakes1[k]).id
            == snakes[k].id && if ev == crate::entity::kill_ev(snakes[k].id) {
            snakes1[k] == snakes[k].spec_killed()
        } else {
            snakes1[k].is_dead == snakes[k].is_dead && snakes1[k].death_timer
                == snakes[k].death_timer
        } by {
            if spec_has_id(snakes, ev.id) {
                let k0 = spec_idx_of(snakes, ev.id);
                assert(0 <= k0 < snakes.len() && snakes[k0].id == ev.id);
                if k == k0 {
                    assert(snakes1[k] == spec_apply_cmd(snakes[k], ev.cmd));
                } else {
                    assert(snakes1[k] == snakes[k]);
                    if k < k0 {
                        assert(snakes[k].id < snakes[k0].id);
                    } else {
                        assert(snakes[k0].id < snakes[k].id);
                    }
                }
            } else {
                if snakes[k].id == ev.id {
                    assert(spec_has_id(snakes, ev.id));
                }
            }
        }

        lemma_kill_events_stick(snakes1, rest);

        assert(spec_apply_events(snakes, evs) == spec_apply_events(snakes1, rest));
        let out = spec_apply_events(snakes1, rest);

        assert forall|k: int|
            0 <= k < snakes.len() && !evs.contains(crate::entity::kill_ev(snakes[k].id)) implies (
        #[trigger] out[k]).is_dead == snakes[k].is_dead && out[k].death_timer
            == snakes[k].death_timer by {
            let id = snakes[k].id;
            assert(ev != crate::entity::kill_ev(id));
            if rest.contains(crate::entity::kill_ev(id)) {
                let t = choose|t: int|
                    0 <= t < rest.len() && rest[t] == crate::entity::kill_ev(id);
                assert(evs[t + 1] == crate::entity::kill_ev(id));
            }
            assert(!rest.contains(crate::entity::kill_ev(snakes1[k].id)));
        }

        assert forall|k: int|
            0 <= k < snakes.len() && evs.contains(crate::entity::kill_ev(snakes[k].id)) implies (
        #[trigger] out[k]).is_dead && match out[k].death_timer {
            Some(t) => !t.spec_is_done(),
            None => false,
        } by {
            let id = snakes[k].id;
            let t = choose|t: int| 0 <= t < evs.len() && evs[t] == crate::entity::kill_ev(id);
            if t == 0 {
                assert(snakes1[k] == snakes[k].spec_killed());
                assert(snakes1[k].is_dead);
                assert(snakes1[k].death_timer matches Some(dt) && !dt.spec_is_done());
                if rest.contains(crate::entity::kill_ev(id)) {
                } else {
                    assert(!rest.contains(crate::entity::kill_ev(snakes1[k].id)));
                }
            } else {
                assert(rest[t - 1] == crate::entity::kill_ev(id));
                assert(rest.contains(crate::entity::kill_ev(snakes1[k].id)));
            }
        }
    }
}

/// The respawn phase of one snake, per tick: a snake whose death countdown
/// has completed is replaced in place — same id and score, a fresh
/// invulnerability window, no trail, one pending growth unit, and its new
/// in-bounds head already recorded (placed by one trail move) — or, when
/// the grid had no room, stays dead with id and score kept.  Every other
/// snake passes through untouched.
pub open spec fn spec_respawn_phase(pre: Snake, post: Snake, rows: int, cols: int) -> bool {
    if pre.is_dead && (pre.death_timer matches Some(t) && t.spec_is_done()) {
        ||| {
            &&& !post.is_dead
            &&& post.id == pre.id
            &&& post.score == pre.score
            &&& post.spawn_timer == (Timer {
                elapsed: 0,
                limit: crate::snake::SPAWN_TIMER_LIMIT as usize,
            })
            &&& post.death_timer is None
            &&& post.body@.len() == 0
            &&& post.grow_count == Some(1usize)
            &&& post.next_dir is None
            &&& post.pos.spec_in_bounds(rows, cols)
            &&& post.came_from_head == Some(
                CameFrom::Real(
                    (crate::snake::u32_pair(post.pos), crate::snake::u32_pair(post.pos)),
                ),
            )
        }
        ||| {
            &&& post.is_dead
            &&& post.id == pre.id
            &&& post.score == pre.score
        }
    } else {
        post == pre
    }
}

/// One snake's respawn step with the grid threaded through.  A snake whose
/// countdown has not completed passes through untouched, grid included.
/// One whose countdown completed first has its remaining trail vacated;
/// then a respawn is owed: only if the grid so cleared is completely full
/// may the snake stay dead (its head cell still runs one trail move, as
/// the step's last clause states); otherwise it is replaced in place —
/// same id and score, fresh window, no trail — and its new head occupies a
/// cell that was vacant.
pub open spec fn spec_respawn_step(
    pre: Snake,
    post: Snake,
    g: Grid,
    g2: Grid,
    rows: int,
    cols: int,
) -> bool {
    if !(pre.is_dead && (pre.death_timer matches Some(t) && t.spec_is_done())) {
        &&& post == pre
        &&& g2 == g
    } else {
        exists|gv: Grid|
            {
                &&& #[trigger] gv.wf()
                &&& gv.spec_rows() == rows
                &&& gv.spec_cols() == cols
                &&& forall|a: int, b: int|
                    0 <= a < rows && 0 <= b < cols ==> gv.cell(a, b)
                        == if crate::snake::seq_holds_cell(pre.body@, pre.body@.len() as int, a, b) {
                        Option::<Entity>::None
                    } else {
                        g.cell(a, b)
                    }
                &&& g2.wf()
                &&& g2.spec_rows() == rows
                &&& g2.spec_cols() == cols
                &&& if gv.spec_full() {
                    &&& post.is_dead
                    &&& post.id == pre.id
                    &&& post.score == pre.score
                    &&& forall|a: int, b: int|
                        0 <= a < rows && 0 <= b < cols && !(a == pre.pos.0 && b == pre.pos.1)
                            ==> g2.cell(a, b) == gv.cell(a, b)
                    &&& g2.cell(pre.pos.0 as int, pre.pos.1 as int) == if !pre.spawn_timer.spec_is_done() {
                        Some(Entity::ImmortalSnakeHead(pre.id))
                    } else {
                        match pre.grow_count {
                            Some(_) => Some(Entity::SnakeBody(pre.id)),
                            None => Option::<Entity>::None,
                        }
                    }
                } else {
                    &&& !post.is_dead
                    &&& post.id == pre.id
                    &&& post.score == pre.score
                    &&& post.spawn_timer == (Timer {
                        elapsed: 0,
                        limit: crate::snake::SPAWN_TIMER_LIMIT as usize,
                    })
                    &&& post.death_timer is None
                    &&& post.body@.len() == 0
                    &&& post.grow_count == Some(1usize)
                    &&& post.next_dir is None
                    &&& post.pos.spec_in_bounds(rows, cols)
                    &&& post.came_from_head == Some(
                        CameFrom::Real(
                            (crate::snake::u32_pair(post.pos), crate::snake::u32_pair(post.pos)),
                        ),
                    )
                    &&& !gv.occ(post.pos.0 as int, post.pos.1 as int)
                    &&& forall|a: int, b: int|
                        0 <= a < rows && 0 <= b < cols && !(a == post.pos.0 && b == post.pos.1)
                            ==> g2.cell(a, b) == gv.cell(a, b)
                    &&& g2.cell(post.pos.0 as int, post.pos.1 as int) == Some(
                        Entity::ImmortalSnakeHead(pre.id),
                    )
                }
            }
    }
}

/// The whole respawn stage: a sequence of grids threads the steps, one
/// snake at a time, from the grid the stage began with to the grid it
/// left.
pub open spec fn spec_respawn_stage(
    pre: Seq<Snake>,
    post: Seq<Snake>,
    gs: Seq<Grid>,
    g0: Grid,
    g_end: Grid,
    rows: int,
    cols: int,
) -> bool {
    &&& gs.len() == pre.len() + 1
    &&& gs[0] == g0
    &&& gs[pre.len() as int] == g_end
    &&& forall|i: int|
        0 <= i < pre.len() ==> spec_respawn_step(
            pre[i],
            post[i],
            #[trigger] gs[i],
            gs[i + 1],
            rows,
            cols,
        )
}

/// One tick's effect on the whole roster, through the step's stages: each
/// snake stepped by its own state machine, then the resolver's emitted
/// events applied in order, then the respawn phase.  Which events fire
/// depends on what the contested grid cells held; but two mortal heads
/// stepping into the same cell are both dead afterwards, whatever else
/// that cell held, and every event is either a kill or one of the
/// grow-prop pair aimed at a snake that was a mortal head this step.
pub open spec fn spec_tick_roster(
    pre: Seq<Snake>,
    post: Seq<Snake>,
    stepped: Seq<Snake>,
    evs: Seq<SnakeEvent>,
    rows: int,
    cols: int,
) -> bool {
    &&& stepped.len() == pre.len()
    &&& forall|k: int|
        0 <= k < pre.len() ==> crate::snake::spec_stepped_from(
            pre[k],
            #[trigger] stepped[k],
            rows,
            cols,
        )
    &&& forall|k: int|
        0 <= k < pre.len() ==> spec_respawn_phase(
            spec_apply_events(stepped, evs)[k],
            #[trigger] post[k],
            rows,
            cols,
        )
    &&& forall|k1: int, k2: int|
        0 <= k1 < pre.len() && 0 <= k2 < pre.len() && k1 != k2 && (#[trigger] stepped[k1]).spec_is_mortal()
            && (#[trigger] stepped[k2]).spec_is_mortal() && stepped[k1].pos == stepped[k2].pos
            ==> post[k1].is_dead && post[k2].is_dead
    &&& forall|t: int|
        0 <= t < evs.len() ==> ((#[trigger] evs[t]).cmd == Cmd::Kill || ((evs[t].cmd == Cmd::Grow(
            1,
        ) || evs[t].cmd == Cmd::GiveScore(1)) && exists|k: int|
            0 <= k < stepped.len() && (#[trigger] stepped[k]).spec_is_mortal() && stepped[k].id
                == evs[t].id))
}

/// One tick's effect on the prop bookkeeping: the removal events are
/// applied, at most one prop is spawned (only when the cadence fired, with
/// the next id and a fresh lifetime, at an in-bounds cell), and every
/// lifetime advances one step before the expired records are dropped.
pub open spec fn spec_tick_props_phase(
    pre_pm: Seq<crate::props::PropRecord>,
    post_pm: Seq<crate::props::PropRecord>,
    pre_pid: PropID,
    post_pid: PropID,
    fired: bool,
    rows: int,
    cols: int,
    pevs: Seq<PropEvent>,
    spawned: Seq<crate::props::PropRecord>,
) -> bool {
    &&& spawned.len() <= 1
    &&& (!fired ==> spawned.len() == 0)
    &&& (spawned.len() == 1 ==> {
        &&& spawned[0].0 == Some(
            Timer { elapsed: 0, limit: crate::entity::PROP_LIFETIME as usize },
        )
        &&& spawned[0].1 == pre_pid
        &&& spawned[0].2.spec_in_bounds(rows, cols)
    })
    &&& post_pid == pre_pid + spawned.len()
    &&& post_pm == crate::props::spec_kept(
        crate::props::spec_ticked_records(spec_apply_prop_events(pre_pm, pevs) + spawned),
    )
}

/// Everything one tick leaves behind, tied together through the stages'
/// witnesses: the roster transformation with its event list; the respawn
/// stage threading a post-collision grid `g_mid` to the grid `g_out` it
/// left; the prop bookkeeping; and the prop stage's grid writes carrying
/// `g_out` to the final grid — one optional spawn at a then-vacant cell,
/// then the expired prop cells vacated.  `g_mid` itself stays existential:
/// pinning it needs the cell-by-cell collision state, which these
/// contracts do not carry.
pub open spec fn spec_tick_stages(
    pre: Seq<Snake>,
    post: Seq<Snake>,
    pre_pm: Seq<crate::props::PropRecord>,
    post_pm: Seq<crate::props::PropRecord>,
    pre_pid: PropID,
    post_pid: PropID,
    fired: bool,
    g_final: Grid,
    rows: int,
    cols: int,
    stepped: Seq<Snake>,
    evs: Seq<SnakeEvent>,
    g_mid: Grid,
    gs: Seq<Grid>,
    g_out: Grid,
    pevs: Seq<PropEvent>,
    spawned: Seq<crate::props::PropRecord>,
) -> bool {
    &&& spec_tick_roster(pre, post, stepped, evs, rows, cols)
    &&& g_mid.wf()
    &&& g_mid.spec_rows() == rows
    &&& g_mid.spec_cols() == cols
    &&& spec_respawn_stage(spec_apply_events(stepped, evs), post, gs, g_mid, g_out, rows, cols)
    &&& spec_tick_props_phase(pre_pm, post_pm, pre_pid, post_pid, fired, rows, cols, pevs, spawned)
    &&& exists|g_sp: Grid|
        {
            &&& #[trigger] g_sp.wf()
            &&& g_sp.spec_rows() == rows
            &&& g_sp.spec_cols() == cols
            &&& if spawned.len() == 1 {
                &&& !g_out.occ(spawned[0].2.0 as int, spawned[0].2.1 as int)
                &&& (match g_sp.cell(spawned[0].2.0 as int, spawned[0].2.1 as int) {
                    Some(Entity::Prop(pid, _)) => pid == pre_pid,
                    _ => false,
                })
                &&& forall|a: int, b: int|
                    0 <= a < rows && 0 <= b < cols && !(a == spawned[0].2.0 && b
                        == spawned[0].2.1) ==> g_sp.cell(a, b) == g_out.cell(a, b)
            } else {
                g_sp == g_out
            }
            &&& forall|a: int, b: int|
                0 <= a < rows && 0 <= b < cols ==> g_final.cell(a, b)
                    == if crate::snake::seq_holds_cell(
                    crate::props::spec_expired_positions(
                        crate::props::spec_ticked_records(
                            spec_apply_prop_events(pre_pm, pevs) + spawned,
                        ),
                    ),
                    crate::props::spec_expired_positions(
                        crate::props::spec_ticked_records(
                            spec_apply_prop_events(pre_pm, pevs) + spawned,
                        ),
                    ).len() as int,
                    a,
                    b,
                ) {
                    Option::<Entity>::None
                } else {
                    g_sp.cell(a, b)
                }
        }
}

/// Bucket `b` stands at this snake's destination cell and already holds
/// its head.
spec fn spec_bucket_holds(b: (usize, usize, Vec<Entity>), s: Snake) -> bool {
    &&& b.0 as int == s.pos.0 as int
    &&& b.1 as int == s.pos.1 as int
    &&& b.2@.contains(Entity::SnakeHead(s.id))
}

/// A prop with the next id was placed at the vacant cell `p`, recorded in
/// the manager with a fresh lifetime, and nothing else moved.
pub open spec fn spec_prop_spawned_at(
    pre: GameState,
    post: GameState,
    p: crate::util::Index2D,
) -> bool {
    &&& p.spec_in_bounds(pre.grid.spec_rows(), pre.grid.spec_cols())
    &&& !pre.grid.occ(p.0 as int, p.1 as int)
    &&& match post.grid.cell(p.0 as int, p.1 as int) {
        Some(Entity::Prop(pid, _)) => pid == pre.next_prop_id,
        _ => false,
    }
    &&& forall|a: int, b: int|
        0 <= a < pre.grid.spec_rows() && 0 <= b < pre.grid.spec_cols() && !(a == p.0 && b
            == p.1) ==> post.grid.cell(a, b) == pre.grid.cell(a, b)
    &&& post.prop_manager.props@ == pre.prop_manager.props@.push(
        (
            Some(Timer { elapsed: 0, limit: crate::entity::PROP_LIFETIME as usize }),
            pre.next_prop_id,
            p,
        ),
    )
    &&& post.next_prop_id == pre.next_prop_id + 1
}

/// The orchestrator: the grid, every snake, the active props and the two
/// id wells (ids are handed out once and never reused).
pub struct GameState {
    pub grid: Grid,
    pub prop_manager: PropManager,
    pub prop_spawn_timer: Timer,
    pub snakes: Vec<Snake>,
    pub next_prop_id: PropID,
    pub next_snake_id: SnakeID,
}

/// Configuration for a new game: dimensions and the prop spawn cadence.
pub struct GameStateBuilder {
    pub rows: usize,
    pub cols: usize,
    pub prop_spawn_timer: Timer,
}

impl GameStateBuilder {
    pub fn new() -> (b: GameStateBuilder)
        ensures
            b.rows == DEFAULT_DIMENSION,
            b.cols == DEFAULT_DIMENSION,
            b.prop_spawn_timer == (Timer { elapsed: 0, limit: DEFAULT_PROP_SPAWN_LIMIT as usize }),
    {
        GameStateBuilder {
            rows: DEFAULT_DIMENSION,
            cols: DEFAULT_DIMENSION,
            prop_spawn_timer: Timer::new(DEFAULT_PROP_SPAWN_LIMIT),
        }
    }

    pub fn with_prop_spawn_timer(self, timer: Timer) -> (b: GameStateBuilder)
        ensures
            b == (GameStateBuilder { prop_spawn_timer: timer, ..self }),
    {
        GameStateBuilder { prop_spawn_timer: timer, ..self }
    }

    pub fn with_dimensions(self, rows: usize, cols: usize) -> (b: GameStateBuilder)
        requires
            1 <= rows <= i32::MAX,
            1 <= cols <= i32::MAX,
        ensures
            b == (GameStateBuilder { rows, cols, ..self }),
    {
        GameStateBuilder { rows, cols, ..self }
    }

    /// The initial state: an empty grid of the configured size, no snakes,
    /// no props, and both id wells at zero.
    pub fn build(self) -> (gs: GameState)
        requires
            1 <= self.rows <= i32::MAX,
            1 <= self.cols <= i32::MAX,
        ensures
            gs.wf(),
            gs.grid.spec_rows() == self.rows,
            gs.grid.spec_cols() == self.cols,
            forall|a: int, b: int|
                0 <= a < self.rows && 0 <= b < self.cols ==> gs.grid.cell(a, b) is None,
            gs.prop_manager.props@.len() == 0,
            gs.prop_spawn_timer == self.prop_spawn_timer,
            gs.snakes@.len() == 0,
            gs.next_prop_id == 0,
            gs.next_snake_id == 0,
    {
        GameState {
            grid: Grid::new(self.rows, self.cols),
            prop_manager: PropManager::new(),
            prop_spawn_timer: self.prop_spawn_timer,
            snakes: Vec::new(),
            next_prop_id: 0,
            next_snake_id: 0,
        }
    }
}

impl GameState {
    /// Everything in the state fits its grid: snakes and prop records point
    /// at in-bounds cells, and the roster is sorted by id below the id
    /// well.
    pub open spec fn wf(self) -> bool {
        &&& self.grid.wf()
        &&& forall|k: int|
            0 <= k < self.snakes@.len() ==> (#[trigger] self.snakes@[k]).wf(
                self.grid.spec_rows(),
                self.grid.spec_cols(),
            )
        &&& spec_ids_sorted(self.snakes@)
        &&& forall|k: int|
            0 <= k < self.snakes@.len() ==> (#[trigger] self.snakes@[k]).id < self.next_snake_id
        &&& self.prop_manager.wf(self.grid.spec_rows(), self.grid.spec_cols())
    }

    pub fn builder() -> (b: GameStateBuilder)
        ensures
            b.rows == DEFAULT_DIMENSION,
            b.cols == DEFAULT_DIMENSION,
            b.prop_spawn_timer == (Timer { elapsed: 0, limit: DEFAULT_PROP_SPAWN_LIMIT as usize }),
    {
        GameStateBuilder::new()
    }

    /// A fresh snake at some vacant cell of `grid`, or nothing when the
    /// grid is full.
    pub fn spawn_snake(grid: &Grid, id: SnakeID) -> (r: Option<Snake>)
        requires
            grid.wf(),
        ensures
            r is None <==> grid.spec_full(),
            r matches Some(s) ==> {
                &&& s.wf(grid.spec_rows(), grid.spec_cols())
                &&& !grid.occ(s.pos.0 as int, s.pos.1 as int)
                &&& s.id == id
                &&& s.prev_last == s.pos
                &&& !s.is_dead
                &&& s.death_timer is None
                &&& s.spawn_timer == (Timer {
                    elapsed: 0,
                    limit: crate::snake::SPAWN_TIMER_LIMIT as usize,
                })
                &&& s.score == 0
                &&& s.body@ == Seq::<crate::util::Index2D>::empty()
                &&& s.grow_count == Some(1usize)
                &&& s.next_dir is None
                &&& s.came_from_head is None
                &&& s.came_from_tail is None
            },
    {
        match grid.index_of_rand_vacant() {
            Some(idx) => Some(Snake::new(id, idx)),
            None => None,
        }
    }

    /// The roster index of the snake carrying `id`, if any.
    fn find_snake(&self, id: SnakeID) -> (r: Option<usize>)
        ensures
            r matches Some(k) ==> {
                &&& k < self.snakes@.len()
                &&& self.snakes@[k as int].id == id
            },
            r is None ==> !spec_has_id(self.snakes@, id),
    {
        let n = self.snakes.len();
        let mut k: usize = 0;
        while k < n
            invariant
                n == self.snakes@.len(),
                k <= n,
                forall|t: int| 0 <= t < k ==> (#[trigger] self.snakes@[t]).id != id,
            decreases n - k,
        {
            if self.snakes[k].id == id {
                return Some(k);
            }
            k = k + 1;
        }
        None
    }

    /// Register a new snake at a random vacant cell.  Fails exactly when
    /// the grid has no vacant cell (or the id well is exhausted, which no
    /// real session reaches).
    pub fn add_snake(&mut self) -> (r: Option<SnakeID>)
        requires
            old(self).wf(),
        ensures
            final(self).wf(),
            final(self).grid.spec_rows() == old(self).grid.spec_rows(),
            final(self).grid.spec_cols() == old(self).grid.spec_cols(),
            r is None <==> (old(self).grid.spec_full() || old(self).next_snake_id == u64::MAX),
            r is None ==> *final(self) == *old(self),
            r matches Some(id) ==> {
                &&& id == old(self).next_snake_id
                &&& final(self).next_snake_id == old(self).next_snake_id + 1
                &&& final(self).snakes@.len() == old(self).snakes@.len() + 1
                &&& forall|k: int|
                    0 <= k < old(self).snakes@.len() ==> final(self).snakes@[k] == old(self).snakes@[k]
                &&& final(self).snakes@.last().id == id
                &&& final(self).snakes@.last().score == 0
                &&& !final(self).snakes@.last().is_dead
                &&& final(self).snakes@.last().body@.len() == 0
                &&& final(self).snakes@.last().death_timer is None
                &&& final(self).snakes@.last().spawn_timer == (Timer {
                    elapsed: 0,
                    limit: crate::snake::SPAWN_TIMER_LIMIT as usize,
                })
                &&& final(self).snakes@.last().grow_count == Some(1usize)
                &&& final(self).snakes@.last().next_dir is None
                &&& !old(self).grid.occ(
                    final(self).snakes@.last().pos.0 as int,
                    final(self).snakes@.last().pos.1 as int,
                )
                &&& final(self).snakes@.last().pos.spec_in_bounds(
                    old(self).grid.spec_rows(),
                    old(self).grid.spec_cols(),
                )
                &&& final(self).grid == old(self).grid
                &&& final(self).prop_manager == old(self).prop_manager
                &&& final(self).prop_spawn_timer == old(self).prop_spawn_timer
                &&& final(self).next_prop_id == old(self).next_prop_id
            },
    {
        if self.next_snake_id == u64::MAX {
            return None;
        }
        let id = self.next_snake_id;
        match Self::spawn_snake(&self.grid, id) {
            Some(sn) => {
                self.next_snake_id = id + 1;
                self.snakes.push(sn);
                Some(id)
            },
            None => None,
        }
    }

    /// Drop the snake carrying `id` from the roster.  The cells it
    /// occupied are not vacated: they stay on the grid as ordinary
    /// occupants.  Fails exactly on an unknown id.
    pub fn remove_snake(&mut self, id: SnakeID) -> (r: Result<(), ()>)
        requires
            old(self).wf(),
        ensures
            final(self).wf(),
            r is Ok <==> spec_has_id(old(self).snakes@, id),
            r is Err ==> *final(self) == *old(self),
            r is Ok ==> {
                &&& final(self).snakes@ == old(self).snakes@.remove(
                    spec_idx_of(old(self).snakes@, id),
                )
                &&& *final(self) == (GameState { snakes: final(self).snakes, ..*old(self) })
            },
    {
        match self.find_snake(id) {
            Some(k) => {
                self.snakes.remove(k);
                proof {
                    let k2 = spec_idx_of(old(self).snakes@, id);
                    assert(0 <= k2 < old(self).snakes@.len() && old(self).snakes@[k2].id == id);
                    assert(k2 == k as int);
                }
                Ok(())
            },
            None => Err(()),
        }
    }

    /// The score of the snake carrying `id`, or nothing on an unknown id.
    pub fn get_score(&self, id: SnakeID) -> (r: Option<u64>)
        requires
            self.wf(),
        ensures
            r is Some <==> spec_has_id(self.snakes@, id),
            r matches Some(sc) ==> sc == self.snakes@[spec_idx_of(self.snakes@, id)].score,
            forall|k: int|
                0 <= k < self.snakes@.len() && (#[trigger] self.snakes@[k]).id == id ==> r == Some(
                    self.snakes@[k].score as u64,
                ),
    {
        match self.find_snake(id) {
            Some(k) => {
                proof {
                    let k2 = spec_idx_of(self.snakes@, id);
                    assert(0 <= k2 < self.snakes@.len() && self.snakes@[k2].id == id);
                    assert(k2 == k as int);
                }
                Some(self.snakes[k].score as u64)
            },
            None => None,
        }
    }

    /// Hand a direction request to the snake carrying `id`.  Fails exactly
    /// on an unknown id.
    pub fn give_direction(&mut self, id: SnakeID, dir: crate::util::Direction) -> (r: Result<
        (),
        (),
    >)
        requires
            old(self).wf(),
        ensures
            final(self).wf(),
            r is Ok <==> spec_has_id(old(self).snakes@, id),
            r is Err ==> *final(self) == *old(self),
            r is Ok ==> {
                let k = spec_idx_of(old(self).snakes@, id);
                let s = old(self).snakes@[k];
                &&& final(self).snakes@ == old(self).snakes@.update(
                    k,
                    if s.spawn_timer.spec_is_done() {
                        Snake { next_dir: Some(dir), ..s }
                    } else {
                        Snake { curr_dir: dir, ..s }
                    },
                )
                &&& *final(self) == (GameState { snakes: final(self).snakes, ..*old(self) })
            },
    {
        match self.find_snake(id) {
            Some(k) => {
                proof {
                    let k2 = spec_idx_of(old(self).snakes@, id);
                    assert(0 <= k2 < old(self).snakes@.len() && old(self).snakes@[k2].id == id);
                    assert(k2 == k as int);
                }
                let sn = &mut self.snakes[k];
                sn.give_direction(dir);
                Ok(())
            },
            None => Err(()),
        }
    }

    /// Apply the prop bookkeeping events: each removal drops the record of
    /// the consumed prop from the manager (its grid cell was already
    /// settled by the resolver).
    fn process_prop_events(&mut self, evs: Vec<PropEvent>)
        requires
            old(self).wf(),
        ensures
            final(self).wf(),
            final(self).prop_manager.props@ == spec_apply_prop_events(
                old(self).prop_manager.props@,
                evs@,
            ),
            *final(self) == (GameState { prop_manager: final(self).prop_manager, ..*old(self) }),
    {
        let n = evs.len();
        proof {
            assert(evs@.subrange(0, n as int) =~= evs@);
        }
        let mut t: usize = 0;
        while t < n
            invariant
                n == evs@.len(),
                t <= n,
                self.grid == old(self).grid,
                self.prop_spawn_timer == old(self).prop_spawn_timer,
                self.snakes == old(self).snakes,
                self.next_prop_id == old(self).next_prop_id,
                self.next_snake_id == old(self).next_snake_id,
                self.wf(),
                spec_apply_prop_events(self.prop_manager.props@, evs@.subrange(t as int, n as int))
                    == spec_apply_prop_events(old(self).prop_manager.props@, evs@),
            decreases n - t,
        {
            let ghost pre = self.prop_manager.props@;
            let id = match evs[t] {
                PropEvent::Remove(id) => id,
            };
            self.prop_manager.remove_by_id(id);
            proof {
                crate::props::lemma_without_id_in_bounds(
                    pre,
                    id,
                    self.grid.spec_rows(),
                    self.grid.spec_cols(),
                );
                assert(evs@.subrange(t as int, n as int)[0] == evs@[t as int]);
                assert(evs@.subrange(t as int, n as int).subrange(1, (n - t) as int) =~= evs@.subrange(
                    t + 1 as int,
                    n as int,
                ));
            }
            t = t + 1;
        }
        proof {
            assert(evs@.subrange(n as int, n as int) =~= Seq::<PropEvent>::empty());
        }
    }

    /// Apply the snake events, in order, each to the snake it targets; an
    /// event carrying an unknown id is ignored.
    fn process_snake_events(&mut self, evs: Vec<SnakeEvent>)
        requires
            old(self).wf(),
        ensures
            final(self).wf(),
            final(self).snakes@ == spec_apply_events(old(self).snakes@, evs@),
            final(self).snakes@.len() == old(self).snakes@.len(),
            forall|k: int|
                0 <= k < old(self).snakes@.len() ==> (#[trigger] final(self).snakes@[k]).id == old(self).snakes@[k].id,
            *final(self) == (GameState { snakes: final(self).snakes, ..*old(self) }),
    {
        let n = evs.len();
        proof {
            assert(evs@.subrange(0, n as int) =~= evs@);
        }
        let mut t: usize = 0;
        while t < n
            invariant
                n == evs@.len(),
                t <= n,
                self.grid == old(self).grid,
                self.prop_manager == old(self).prop_manager,
                self.prop_spawn_timer == old(self).prop_spawn_timer,
                self.next_prop_id == old(self).next_prop_id,
                self.next_snake_id == old(self).next_snake_id,
                self.snakes@.len() == old(self).snakes@.len(),
                forall|k: int|
                    0 <= k < old(self).snakes@.len() ==> (#[trigger] self.snakes@[k]).id == old(self).snakes@[k].id,
                self.wf(),
                spec_apply_events(self.snakes@, evs@.subrange(t as int, n as int))
                    == spec_apply_events(old(self).snakes@, evs@),
            decreases n - t,
        {
            let ev = evs[t];
            let ghost pre = self.snakes@;
            match self.find_snake(ev.id) {
                Some(k) => {
                    let sn = &mut self.snakes[k];
                    match ev.cmd {
                        Cmd::Kill => sn.kill(),
                        Cmd::GiveScore(d) => sn.give_score(d),
                        Cmd::Grow(units) => {
                            if units >= 1 {
                                sn.grow(units);
                            }
                        },
                    }
                    proof {
                        let k2 = spec_idx_of(pre, ev.id);
                        assert(0 <= k2 < pre.len() && pre[k2].id == ev.id);
                        assert(k2 == k as int);
                        assert(self.snakes@ =~= spec_apply_event(pre, ev));
                        lemma_apply_cmd_wf(
                            pre[k as int],
                            ev.cmd,
                            self.grid.spec_rows(),
                            self.grid.spec_cols(),
                        );
                    }
                },
                None => {
                    proof {
                        assert(spec_apply_event(pre, ev) == pre);
                    }
                },
            }
            proof {
                assert(evs@.subrange(t as int, n as int)[0] == ev);
                assert(evs@.subrange(t as int, n as int).subrange(1, (n - t) as int) =~= evs@.subrange(
                    t + 1 as int,
                    n as int,
                ));
            }
            t = t + 1;
        }
        proof {
            assert(evs@.subrange(n as int, n as int) =~= Seq::<SnakeEvent>::empty());
        }
    }

    /// When the spawn cadence timer completes, place a random prop from the
    /// catalog at a random vacant cell (if the grid has one and the id well
    /// is not dry) and restart the cadence; then advance the timer.
    fn tick_prop_spawn_timer(&mut self)
        requires
            old(self).wf(),
        ensures
            final(self).wf(),
            final(self).grid.spec_rows() == old(self).grid.spec_rows(),
            final(self).grid.spec_cols() == old(self).grid.spec_cols(),
            final(self).snakes == old(self).snakes,
            final(self).next_snake_id == old(self).next_snake_id,
            if !old(self).prop_spawn_timer.spec_is_done() {
                *final(self) == (GameState {
                    prop_spawn_timer: old(self).prop_spawn_timer.spec_ticked(),
                    ..*old(self)
                })
            } else {
                &&& final(self).prop_spawn_timer == (Timer {
                    elapsed: 0,
                    limit: old(self).prop_spawn_timer.limit,
                }).spec_ticked()
                &&& if old(self).grid.spec_full() || old(self).next_prop_id == u64::MAX {
                    &&& final(self).grid == old(self).grid
                    &&& final(self).prop_manager == old(self).prop_manager
                    &&& final(self).next_prop_id == old(self).next_prop_id
                } else {
                    exists|p: crate::util::Index2D| #[trigger] spec_prop_spawned_at(
                        *old(self),
                        *final(self),
                        p,
                    )
                }
            },
    {
        let ghost mut spawned_at: Option<crate::util::Index2D> = None;
        if self.prop_spawn_timer.is_done() {
            if self.next_prop_id < u64::MAX {
                match self.grid.index_of_rand_vacant() {
                    Some(pos) => {
                        let pid = self.next_prop_id;
                        self.next_prop_id = pid + 1;
                        let prop = food_spawner();
                        self.prop_manager.add(prop.get_timer(), pid, pos);
                        self.grid.add(pos, Entity::Prop(pid, prop));
                        proof {
                            spawned_at = Some(pos);
                        }
                    },
                    None => {},
                }
            }
            self.prop_spawn_timer.reset();
        }
        self.prop_spawn_timer.tick();
        proof {
            match spawned_at {
                Some(p) => {
                    assert(spec_prop_spawned_at(*old(self), *self, p));
                },
                None => {},
            }
        }
    }

    /// Advance every prop lifetime, then vacate the cell of every prop
    /// whose lifetime just ran out and drop its record.
    fn tick_prop_manager(&mut self)
        requires
            old(self).wf(),
        ensures
            final(self).wf(),
            final(self).grid.spec_rows() == old(self).grid.spec_rows(),
            final(self).grid.spec_cols() == old(self).grid.spec_cols(),
            final(self).snakes == old(self).snakes,
            final(self).next_snake_id == old(self).next_snake_id,
            final(self).next_prop_id == old(self).next_prop_id,
            final(self).prop_spawn_timer == old(self).prop_spawn_timer,
            final(self).prop_manager.props@ == crate::props::spec_kept(
                crate::props::spec_ticked_records(old(self).prop_manager.props@),
            ),
            forall|a: int, b: int|
                0 <= a < old(self).grid.spec_rows() && 0 <= b < old(self).grid.spec_cols()
                    ==> final(self).grid.cell(a, b) == if crate::snake::seq_holds_cell(
                    crate::props::spec_expired_positions(
                        crate::props::spec_ticked_records(old(self).prop_manager.props@),
                    ),
                    crate::props::spec_expired_positions(
                        crate::props::spec_ticked_records(old(self).prop_manager.props@),
                    ).len() as int,
                    a,
                    b,
                ) {
                    Option::<Entity>::None
                } else {
                    old(self).grid.cell(a, b)
                },
    {
        self.prop_manager.tick();
        proof {
            assert(self.prop_manager.props@ =~= crate::props::spec_ticked_records(
                old(self).prop_manager.props@,
            ));
        }
        let ghost ticked = self.prop_manager.props@;
        proof {
            assert forall|k: int| 0 <= k < ticked.len() implies (#[trigger] ticked[k]).2.spec_in_bounds(
                self.grid.spec_rows(),
                self.grid.spec_cols(),
            ) by {
                assert(old(self).prop_manager.props@[k].2.spec_in_bounds(
                    self.grid.spec_rows(),
                    self.grid.spec_cols(),
                ));
            }
            crate::props::lemma_expiry_in_bounds(
                ticked,
                self.grid.spec_rows(),
                self.grid.spec_cols(),
            );
        }
        let idcs = self.prop_manager.indices_to_remove();
        let ghost expired = crate::props::spec_expired_positions(ticked);
        let n = idcs.len();
        let mut t: usize = 0;
        while t < n
            invariant
                n == idcs@.len(),
                t <= n,
                idcs@ == expired,
                forall|k: int|
                    0 <= k < expired.len() ==> (#[trigger] expired[k]).spec_in_bounds(
                        old(self).grid.spec_rows(),
                        old(self).grid.spec_cols(),
                    ),
                self.grid.wf(),
                self.grid.spec_rows() == old(self).grid.spec_rows(),
                self.grid.spec_cols() == old(self).grid.spec_cols(),
                self.prop_manager.props@ == crate::props::spec_kept(ticked),
                self.snakes == old(self).snakes,
                self.next_snake_id == old(self).next_snake_id,
                self.next_prop_id == old(self).next_prop_id,
                self.prop_spawn_timer == old(self).prop_spawn_timer,
                forall|a: int, b: int|
                    0 <= a < old(self).grid.spec_rows() && 0 <= b < old(self).grid.spec_cols()
                        ==> self.grid.cell(a, b) == if crate::snake::seq_holds_cell(
                        expired,
                        t as int,
                        a,
                        b,
                    ) {
                        Option::<Entity>::None
                    } else {
                        old(self).grid.cell(a, b)
                    },
            decreases n - t,
        {
            let idx = idcs[t];
            self.grid.remove(idx);
            t = t + 1;
        }
    }

    /// The first bucket keyed by cell `(i, j)`, if one exists.
    fn find_bucket(buckets: &Vec<(usize, usize, Vec<Entity>)>, i: usize, j: usize) -> (r: Option<
        usize,
    >)
        ensures
            r matches Some(t) ==> {
                &&& t < buckets@.len()
                &&& buckets@[t as int].0 == i
                &&& buckets@[t as int].1 == j
            },
            r is None ==> forall|t: int|
                0 <= t < buckets@.len() ==> !((#[trigger] buckets@[t]).0 == i && buckets@[t].1
                    == j),
    {
        let n = buckets.len();
        let mut t: usize = 0;
        while t < n
            invariant
                n == buckets@.len(),
                t <= n,
                forall|x: int|
                    0 <= x < t ==> !((#[trigger] buckets@[x]).0 == i && buckets@[x].1 == j),
            decreases n - t,
        {
            if buckets[t].0 == i && buckets[t].1 == j {
                return Some(t);
            }
            t = t + 1;
        }
        None
    }

    /// One full simulation step, in fixed order: every snake's timers and
    /// movement; bucketing of mortal heads (with whatever already occupies
    /// their destination) by destination cell; collision resolution and
    /// write-back per contested cell; prop bookkeeping events, then snake
    /// events; respawn of snakes whose death countdown completed; and last,
    /// prop spawning and expiry on the settled grid.
    ///
    /// The contract follows those stages.  The roster ends as the
    /// per-snake state machine's step, some list of resolver events, and
    /// the respawn phase, in that order (`spec_tick_roster`); the prop
    /// bookkeeping ends as the removals, at most one cadence spawn and one
    /// lifetime step (`spec_tick_props_phase`); the cadence timer itself
    /// advances deterministically.  The event list and the spawn are
    /// existential: which events fire and where a prop lands depend on
    /// what the contested cells held and on the draws.
    pub fn tick(&mut self)
        requires
            old(self).wf(),
        ensures
            final(self).wf(),
            final(self).grid.spec_rows() == old(self).grid.spec_rows(),
            final(self).grid.spec_cols() == old(self).grid.spec_cols(),
            final(self).snakes@.len() == old(self).snakes@.len(),
            forall|k: int|
                0 <= k < old(self).snakes@.len() ==> (#[trigger] final(self).snakes@[k]).id == old(
                    self,
                ).snakes@[k].id,
            final(self).next_snake_id == old(self).next_snake_id,
            final(self).prop_spawn_timer == (if old(self).prop_spawn_timer.spec_is_done() {
                Timer { elapsed: 0, limit: old(self).prop_spawn_timer.limit }
            } else {
                old(self).prop_spawn_timer
            }).spec_ticked(),
            exists|
                stepped: Seq<Snake>,
                evs: Seq<SnakeEvent>,
                g_mid: Grid,
                gs: Seq<Grid>,
                g_out: Grid,
                pevs: Seq<PropEvent>,
                spawned: Seq<crate::props::PropRecord>,
            | #[trigger] spec_tick_stages(
                old(self).snakes@,
                final(self).snakes@,
                old(self).prop_manager.props@,
                final(self).prop_manager.props@,
                old(self).next_prop_id,
                final(self).next_prop_id,
                old(self).prop_spawn_timer.spec_is_done(),
                final(self).grid,
                old(self).grid.spec_rows(),
                old(self).grid.spec_cols(),
                stepped,
                evs,
                g_mid,
                gs,
                g_out,
                pevs,
                spawned,
            ),
    {
        let ghost rows = old(self).grid.spec_rows();
        let ghost cols = old(self).grid.spec_cols();

        // Per-snake state machine: timers, trail shedding, then movement
        // for the living.
        let n = self.snakes.len();
        let mut k: usize = 0;
        while k < n
            invariant
                n == self.snakes@.len(),
                n == old(self).snakes@.len(),
                k <= n,
                self.grid.wf(),
                self.grid.spec_rows() == rows,
                self.grid.spec_cols() == cols,
                forall|i: int|
                    0 <= i < n ==> (#[trigger] self.snakes@[i]).wf(rows, cols),
                forall|i: int|
                    0 <= i < n ==> (#[trigger] self.snakes@[i]).id == old(self).snakes@[i].id,
                self.prop_manager == old(self).prop_manager,
                self.prop_manager.wf(rows, cols),
                self.prop_spawn_timer == old(self).prop_spawn_timer,
                self.next_prop_id == old(self).next_prop_id,
                self.next_snake_id == old(self).next_snake_id,
                forall|i: int| k <= i < n ==> self.snakes@[i] == old(self).snakes@[i],
                forall|i: int|
                    0 <= i < k ==> crate::snake::spec_stepped_from(
                        old(self).snakes@[i],
                        #[trigger] self.snakes@[i],
                        rows,
                        cols,
                    ),
            decreases n - k,
        {
            let sn = &mut self.snakes[k];
            let ghost pre = *sn;
            sn.tick(&mut self.grid);
            let ghost timer_done = *sn;
            if !sn.is_dead {
                sn.remove_head(&mut self.grid);
                sn.move_body(&mut self.grid);
                let ghost moved = *sn;
                sn.tick_head(&self.grid);
                proof {
                    assert(crate::snake::spec_timer_phase(pre, timer_done));
                    assert(crate::snake::spec_move_phase(timer_done, moved));
                    assert(crate::snake::spec_like(*sn, moved.spec_head_stepped(rows, cols)));
                    assert(crate::snake::spec_stepped_from(pre, *sn, rows, cols));
                }
            } else {
                proof {
                    assert(crate::snake::spec_timer_phase(pre, timer_done));
                    assert(crate::snake::spec_like(*sn, timer_done));
                    assert(crate::snake::spec_stepped_from(pre, *sn, rows, cols));
                }
            }
            k = k + 1;
        }

        let ghost stepped = self.snakes@;
        proof {
            assert(spec_ids_sorted(stepped));
        }

        // Bucket every mortal head by its destination cell, taking along
        // whatever already occupies that cell.
        let mut buckets: Vec<(usize, usize, Vec<Entity>)> = Vec::new();
        let mut k: usize = 0;
        while k < n
            invariant
                n == self.snakes@.len(),
                n == old(self).snakes@.len(),
                k <= n,
                self.grid.wf(),
                self.grid.spec_rows() == rows,
                self.grid.spec_cols() == cols,
                forall|i: int|
                    0 <= i < n ==> (#[trigger] self.snakes@[i]).wf(rows, cols),
                forall|i: int|
                    0 <= i < n ==> (#[trigger] self.snakes@[i]).id == old(self).snakes@[i].id,
                self.prop_manager == old(self).prop_manager,
                self.prop_manager.wf(rows, cols),
                self.prop_spawn_timer == old(self).prop_spawn_timer,
                self.next_prop_id == old(self).next_prop_id,
                self.next_snake_id == old(self).next_snake_id,
                self.snakes@ == stepped,
                forall|t: int|
                    0 <= t < buckets@.len() ==> {
                        &&& (#[trigger] buckets@[t]).0 < rows
                        &&& buckets@[t].1 < cols
                        &&& crate::entity::others_of(buckets@[t].2@).len() <= 1
                        &&& buckets@[t].2@.len() >= 1
                        &&& exists|i: int|
                            0 <= i < n && (#[trigger] stepped[i]).spec_is_mortal()
                                && buckets@[t].2@[0] == Entity::SnakeHead(stepped[i].id)
                    },
                forall|i: int|
                    0 <= i < k && (#[trigger] stepped[i]).spec_is_mortal() ==> exists|t: int|
                        0 <= t < buckets@.len() && #[trigger] spec_bucket_holds(
                            buckets@[t],
                            stepped[i],
                        ),
                forall|t1: int, t2: int|
                    0 <= t1 < t2 < buckets@.len() ==> !((#[trigger] buckets@[t1]).0 == (
                    #[trigger] buckets@[t2]).0 && buckets@[t1].1 == buckets@[t2].1),
            decreases n - k,
        {
            if self.snakes[k].is_mortal() {
                let pos = self.snakes[k].pos;
                let id = self.snakes[k].id;
                let (pi, pj) = pos.get();
                let ghost pre_buckets = buckets@;
                match Self::find_bucket(&buckets, pi, pj) {
                    Some(t) => {
                        let ghost pre = buckets@[t as int].2@;
                        let b = &mut buckets[t];
                        b.2.push(Entity::SnakeHead(id));
                        proof {
                            crate::entity::lemma_partition_push(pre, Entity::SnakeHead(id));
                            assert(buckets@[t as int].2@ == pre.push(Entity::SnakeHead(id)));
                            assert(buckets@[t as int].2@[pre.len() as int] == Entity::SnakeHead(
                                id,
                            ));
                            assert(spec_bucket_holds(buckets@[t as int], stepped[k as int]));
                            assert forall|i: int|
                                0 <= i < k && (#[trigger] stepped[i]).spec_is_mortal() implies exists|t2: int|
                                0 <= t2 < buckets@.len() && #[trigger] spec_bucket_holds(
                                    buckets@[t2],
                                    stepped[i],
                                ) by {
                                let t0 = choose|t0: int|
                                    0 <= t0 < pre_buckets.len() && #[trigger] spec_bucket_holds(
                                        pre_buckets[t0],
                                        stepped[i],
                                    );
                                if t0 == t as int {
                                    let w = choose|w: int|
                                        0 <= w < pre.len() && pre[w] == Entity::SnakeHead(
                                            stepped[i].id,
                                        );
                                    assert(buckets@[t as int].2@[w] == Entity::SnakeHead(
                                        stepped[i].id,
                                    ));
                                    assert(spec_bucket_holds(buckets@[t as int], stepped[i]));
                                } else {
                                    assert(buckets@[t0] == pre_buckets[t0]);
                                    assert(spec_bucket_holds(buckets@[t0], stepped[i]));
                                }
                            }
                            assert forall|t1: int, t2: int|
                                0 <= t1 < t2 < buckets@.len() implies !((
                            #[trigger] buckets@[t1]).0 == (#[trigger] buckets@[t2]).0
                                && buckets@[t1].1 == buckets@[t2].1) by {
                                assert(buckets@[t1].0 == pre_buckets[t1].0 && buckets@[t1].1
                                    == pre_buckets[t1].1);
                                assert(buckets@[t2].0 == pre_buckets[t2].0 && buckets@[t2].1
                                    == pre_buckets[t2].1);
                            }
                        }
                    },
                    None => {
                        let mut ens: Vec<Entity> = Vec::new();
                        ens.push(Entity::SnakeHead(id));
                        proof {
                            assert(ens@ =~= seq![Entity::SnakeHead(id)]);
                            assert(seq![Entity::SnakeHead(id)].drop_last()
                                =~= Seq::<Entity>::empty());
                            assert(crate::entity::others_of(Seq::<Entity>::empty())
                                =~= Seq::<Entity>::empty());
                            assert(crate::entity::others_of(ens@).len() == 0);
                        }
                        match self.grid.get(pos) {
                            Some(e) => {
                                let ghost pre = ens@;
                                ens.push(e);
                                self.grid.remove(pos);
                                proof {
                                    crate::entity::lemma_partition_push(pre, e);
                                }
                            },
                            None => {},
                        }
                        buckets.push((pi, pj, ens));
                        proof {
                            assert(ens@[0] == Entity::SnakeHead(id));
                            assert(buckets@[buckets@.len() - 1].2@.contains(Entity::SnakeHead(
                                id,
                            )));
                            assert(spec_bucket_holds(
                                buckets@[buckets@.len() - 1],
                                stepped[k as int],
                            ));
                            assert forall|i: int|
                                0 <= i < k && (#[trigger] stepped[i]).spec_is_mortal() implies exists|t2: int|
                                0 <= t2 < buckets@.len() && #[trigger] spec_bucket_holds(
                                    buckets@[t2],
                                    stepped[i],
                                ) by {
                                let t0 = choose|t0: int|
                                    0 <= t0 < pre_buckets.len() && #[trigger] spec_bucket_holds(
                                        pre_buckets[t0],
                                        stepped[i],
                                    );
                                assert(buckets@[t0] == pre_buckets[t0]);
                                assert(spec_bucket_holds(buckets@[t0], stepped[i]));
                            }
                        }
                    },
                }
            }
            k = k + 1;
        }

        // Resolve each contested cell and write the survivor (or nothing)
        // back, accumulating the emitted events.
        let mut prop_evs: Vec<PropEvent> = Vec::new();
        let mut snake_evs: Vec<SnakeEvent> = Vec::new();
        proof {
            assert forall|k1: int, k2: int|
                0 <= k1 < n && 0 <= k2 < n && k1 != k2 && (#[trigger] stepped[k1]).spec_is_mortal()
                    && (#[trigger] stepped[k2]).spec_is_mortal() && stepped[k1].pos
                    == stepped[k2].pos implies exists|t: int|
                0 <= t < buckets@.len() && #[trigger] spec_bucket_holds(buckets@[t], stepped[k1])
                    && spec_bucket_holds(buckets@[t], stepped[k2]) by {
                let t1 = choose|t: int|
                    0 <= t < buckets@.len() && #[trigger] spec_bucket_holds(
                        buckets@[t],
                        stepped[k1],
                    );
                let t2 = choose|t: int|
                    0 <= t < buckets@.len() && #[trigger] spec_bucket_holds(
                        buckets@[t],
                        stepped[k2],
                    );
                assert(t1 == t2);
                assert(spec_bucket_holds(buckets@[t1], stepped[k2]));
            }
        }
        while buckets.len() > 0
            invariant
                n == self.snakes@.len(),
                n == old(self).snakes@.len(),
                self.grid.wf(),
                self.grid.spec_rows() == rows,
                self.grid.spec_cols() == cols,
                forall|i: int|
                    0 <= i < n ==> (#[trigger] self.snakes@[i]).wf(rows, cols),
                forall|i: int|
                    0 <= i < n ==> (#[trigger] self.snakes@[i]).id == old(self).snakes@[i].id,
                self.prop_manager == old(self).prop_manager,
                self.prop_manager.wf(rows, cols),
                self.prop_spawn_timer == old(self).prop_spawn_timer,
                self.next_prop_id == old(self).next_prop_id,
                self.next_snake_id == old(self).next_snake_id,
                self.snakes@ == stepped,
                spec_ids_sorted(stepped),
                forall|t: int|
                    0 <= t < buckets@.len() ==> {
                        &&& (#[trigger] buckets@[t]).0 < rows
                        &&& buckets@[t].1 < cols
                        &&& crate::entity::others_of(buckets@[t].2@).len() <= 1
                        &&& buckets@[t].2@.len() >= 1
                        &&& exists|i: int|
                            0 <= i < n && (#[trigger] stepped[i]).spec_is_mortal()
                                && buckets@[t].2@[0] == Entity::SnakeHead(stepped[i].id)
                    },
                forall|t: int|
                    0 <= t < snake_evs@.len() ==> ((#[trigger] snake_evs@[t]).cmd == Cmd::Kill || ((
                    snake_evs@[t].cmd == Cmd::Grow(1) || snake_evs@[t].cmd == Cmd::GiveScore(1))
                        && exists|i: int|
                        0 <= i < n && (#[trigger] stepped[i]).spec_is_mortal() && stepped[i].id
                            == snake_evs@[t].id)),
                forall|k1: int, k2: int|
                    0 <= k1 < n && 0 <= k2 < n && k1 != k2 && (#[trigger] stepped[k1]).spec_is_mortal()
                        && (#[trigger] stepped[k2]).spec_is_mortal() && stepped[k1].pos
                        == stepped[k2].pos ==> {
                        ||| exists|t: int|
                            0 <= t < buckets@.len() && #[trigger] spec_bucket_holds(
                                buckets@[t],
                                stepped[k1],
                            ) && spec_bucket_holds(buckets@[t], stepped[k2])
                        ||| (snake_evs@.contains(crate::entity::kill_ev(stepped[k1].id))
                            && snake_evs@.contains(crate::entity::kill_ev(stepped[k2].id)))
                    },
            decreases buckets@.len(),
        {
            let ghost pre_buckets = buckets@;
            let ghost pre_evs = snake_evs@;
            let (pi, pj, ens) = buckets.remove(0);
            let ghost ens_v = ens@;
            proof {
                assert(buckets@ =~= pre_buckets.subrange(1, pre_buckets.len() as int));
                assert forall|t: int| 0 <= t < buckets@.len() implies {
                    &&& (#[trigger] buckets@[t]).0 < rows
                    &&& buckets@[t].1 < cols
                    &&& crate::entity::others_of(buckets@[t].2@).len() <= 1
                } by {
                    assert(buckets@[t] == pre_buckets[t + 1]);
                }
            }
            let ghost mut new_evs: Seq<SnakeEvent> = Seq::empty();
            match Entity::collide_many(ens) {
                Ok((en, mut pevs, mut sevs)) => {
                    proof {
                        new_evs = sevs@;
                    }
                    let idx = crate::util::Index2D::new(pi, pj);
                    match en {
                        Some(e) => self.grid.add(idx, e),
                        None => self.grid.remove(idx),
                    }
                    prop_evs.append(&mut pevs);
                    snake_evs.append(&mut sevs);
                },
                Err(_) => {
                    proof {
                        crate::entity::lemma_err_needs_two_others(ens_v);
                    }
                    unreached::<()>()
                },
            }
            proof {
                assert(snake_evs@ == pre_evs + new_evs);
                crate::entity::lemma_collide_events_shape(ens_v);
                assert forall|t: int|
                    0 <= t < snake_evs@.len() implies ((#[trigger] snake_evs@[t]).cmd == Cmd::Kill
                    || ((snake_evs@[t].cmd == Cmd::Grow(1) || snake_evs@[t].cmd == Cmd::GiveScore(
                    1)) && exists|i: int|
                    0 <= i < n && (#[trigger] stepped[i]).spec_is_mortal() && stepped[i].id
                        == snake_evs@[t].id)) by {
                    if t < pre_evs.len() {
                        assert(snake_evs@[t] == pre_evs[t]);
                    } else {
                        assert(snake_evs@[t] == new_evs[t - pre_evs.len()]);
                        if new_evs[t - pre_evs.len()].cmd != Cmd::Kill {
                            let i0 = choose|i: int|
                                0 <= i < n && (#[trigger] stepped[i]).spec_is_mortal()
                                    && pre_buckets[0].2@[0] == Entity::SnakeHead(stepped[i].id);
                            assert(ens_v[0] == Entity::SnakeHead(stepped[i0].id));
                            assert(ens_v[0].spec_head_id() == stepped[i0].id);
                        }
                    }
                }
                assert forall|k1: int, k2: int|
                    0 <= k1 < n && 0 <= k2 < n && k1 != k2 && (#[trigger] stepped[k1]).spec_is_mortal()
                        && (#[trigger] stepped[k2]).spec_is_mortal() && stepped[k1].pos
                        == stepped[k2].pos implies {
                    ||| exists|t: int|
                        0 <= t < buckets@.len() && #[trigger] spec_bucket_holds(
                            buckets@[t],
                            stepped[k1],
                        ) && spec_bucket_holds(buckets@[t], stepped[k2])
                    ||| (snake_evs@.contains(crate::entity::kill_ev(stepped[k1].id))
                        && snake_evs@.contains(crate::entity::kill_ev(stepped[k2].id)))
                } by {
                    if exists|t: int|
                        0 <= t < pre_buckets.len() && #[trigger] spec_bucket_holds(
                            pre_buckets[t],
                            stepped[k1],
                        ) && spec_bucket_holds(pre_buckets[t], stepped[k2]) {
                        let t = choose|t: int|
                            0 <= t < pre_buckets.len() && #[trigger] spec_bucket_holds(
                                pre_buckets[t],
                                stepped[k1],
                            ) && spec_bucket_holds(pre_buckets[t], stepped[k2]);
                        if t == 0 {
                            assert(ens_v == pre_buckets[0].2@);
                            if k1 < k2 {
                                assert(stepped[k1].id < stepped[k2].id);
                            } else {
                                assert(stepped[k2].id < stepped[k1].id);
                            }
                            let w1 = choose|w: int|
                                0 <= w < ens_v.len() && ens_v[w] == Entity::SnakeHead(
                                    stepped[k1].id,
                                );
                            let w2 = choose|w: int|
                                0 <= w < ens_v.len() && ens_v[w] == Entity::SnakeHead(
                                    stepped[k2].id,
                                );
                            assert(w1 != w2);
                            crate::entity::lemma_two_heads_killed(ens_v, w1, w2);
                            let wa = choose|w: int|
                                0 <= w < new_evs.len() && new_evs[w] == crate::entity::kill_ev(
                                    stepped[k1].id,
                                );
                            let wb = choose|w: int|
                                0 <= w < new_evs.len() && new_evs[w] == crate::entity::kill_ev(
                                    stepped[k2].id,
                                );
                            assert(snake_evs@[pre_evs.len() + wa] == crate::entity::kill_ev(
                                stepped[k1].id,
                            ));
                            assert(snake_evs@[pre_evs.len() + wb] == crate::entity::kill_ev(
                                stepped[k2].id,
                            ));
                        } else {
                            assert(buckets@[t - 1] == pre_buckets[t]);
                            assert(spec_bucket_holds(buckets@[t - 1], stepped[k1])
                                && spec_bucket_holds(buckets@[t - 1], stepped[k2]));
                        }
                    } else {
                        let wa = choose|w: int|
                            0 <= w < pre_evs.len() && pre_evs[w] == crate::entity::kill_ev(
                                stepped[k1].id,
                            );
                        let wb = choose|w: int|
                            0 <= w < pre_evs.len() && pre_evs[w] == crate::entity::kill_ev(
                                stepped[k2].id,
                            );
                        assert(snake_evs@[wa] == crate::entity::kill_ev(stepped[k1].id));
                        assert(snake_evs@[wb] == crate::entity::kill_ev(stepped[k2].id));
                    }
                }
            }
        }

        // Apply the accumulated events: prop bookkeeping first, then the
        // effects on snakes.
        let ghost pevs_w = prop_evs@;
        let ghost sevs_w = snake_evs@;
        self.process_prop_events(prop_evs);
        self.process_snake_events(snake_evs);
        let ghost settled = self.snakes@;
        proof {
            assert(settled == spec_apply_events(stepped, sevs_w));
            lemma_kill_events_stick(stepped, sevs_w);
        }

        // Replace every snake whose death countdown completed.
        let ghost g_mid_w = self.grid;
        self.respawn_completed();
        let ghost g_out_w = self.grid;
        let ghost post_respawn = self.snakes@;

        proof {
            assert(spec_ids_sorted(self.snakes@));
        }

        // Prop spawning and expiry run last, on a consistent grid: the
        // cadence may place one new prop, then every lifetime advances and
        // the expired cells are vacated.
        let ghost pm_after_events = self.prop_manager.props@;
        let ghost pre_spawn = *self;
        self.tick_prop_spawn_timer();
        let ghost pm_after_spawn = self.prop_manager.props@;
        let ghost g_sp_w = self.grid;
        let ghost mut spawned_w: Seq<crate::props::PropRecord> = Seq::empty();
        proof {
            if pre_spawn.prop_spawn_timer.spec_is_done() && !(pre_spawn.grid.spec_full()
                || pre_spawn.next_prop_id == u64::MAX) {
                let p = choose|p: crate::util::Index2D| spec_prop_spawned_at(pre_spawn, *self, p);
                spawned_w = seq![
                    (
                        Some(Timer { elapsed: 0, limit: crate::entity::PROP_LIFETIME as usize }),
                        pre_spawn.next_prop_id,
                        p,
                    ),
                ];
                assert(pm_after_spawn =~= pm_after_events + spawned_w);
            } else {
                assert(pm_after_spawn =~= pm_after_events + spawned_w);
            }
        }
        self.tick_prop_manager();

        proof {
            assert forall|k1: int, k2: int|
                0 <= k1 < n && 0 <= k2 < n && k1 != k2 && (#[trigger] stepped[k1]).spec_is_mortal()
                    && (#[trigger] stepped[k2]).spec_is_mortal() && stepped[k1].pos
                    == stepped[k2].pos implies self.snakes@[k1].is_dead
                && self.snakes@[k2].is_dead by {
                assert(sevs_w.contains(crate::entity::kill_ev(stepped[k1].id)));
                assert(sevs_w.contains(crate::entity::kill_ev(stepped[k2].id)));
                assert(settled[k1].is_dead && (settled[k1].death_timer matches Some(t)
                    && !t.spec_is_done()));
                assert(settled[k2].is_dead && (settled[k2].death_timer matches Some(t)
                    && !t.spec_is_done()));
                assert(spec_respawn_phase(settled[k1], self.snakes@[k1], rows, cols));
                assert(spec_respawn_phase(settled[k2], self.snakes@[k2], rows, cols));
            }
            assert(spec_tick_roster(old(self).snakes@, self.snakes@, stepped, sevs_w, rows, cols));
            assert(spec_apply_prop_events(old(self).prop_manager.props@, pevs_w) + spawned_w
                =~= pm_after_spawn);
            assert(spec_tick_props_phase(
                old(self).prop_manager.props@,
                self.prop_manager.props@,
                old(self).next_prop_id,
                self.next_prop_id,
                old(self).prop_spawn_timer.spec_is_done(),
                rows,
                cols,
                pevs_w,
                spawned_w,
            ));
            let gs = choose|gs: Seq<Grid>|
                #[trigger] spec_respawn_stage(
                    settled,
                    post_respawn,
                    gs,
                    g_mid_w,
                    g_out_w,
                    rows,
                    cols,
                );
            assert(g_sp_w.wf());
            assert(spec_tick_stages(
                old(self).snakes@,
                self.snakes@,
                old(self).prop_manager.props@,
                self.prop_manager.props@,
                old(self).next_prop_id,
                self.next_prop_id,
                old(self).prop_spawn_timer.spec_is_done(),
                self.grid,
                rows,
                cols,
                stepped,
                sevs_w,
                g_mid_w,
                gs,
                g_out_w,
                pevs_w,
                spawned_w,
            ));
        }
    }

    /// Replace, in place, every snake whose death countdown completed:
    /// vacate what is left of its trail and respawn it at a random vacant
    /// cell, keeping its id and score, with a fresh invulnerability window
    /// and no trail, already placed on the grid.  When no vacant cell is
    /// left the snake simply stays dead; every other snake is untouched.
    fn respawn_completed(&mut self)
        requires
            old(self).wf(),
        ensures
            final(self).wf(),
            final(self).grid.spec_rows() == old(self).grid.spec_rows(),
            final(self).grid.spec_cols() == old(self).grid.spec_cols(),
            final(self).snakes@.len() == old(self).snakes@.len(),
            final(self).prop_manager == old(self).prop_manager,
            final(self).prop_spawn_timer == old(self).prop_spawn_timer,
            final(self).next_prop_id == old(self).next_prop_id,
            final(self).next_snake_id == old(self).next_snake_id,
            forall|k: int|
                0 <= k < old(self).snakes@.len() ==> (#[trigger] final(self).snakes@[k]).id == old(self).snakes@[k].id,
            forall|k: int|
                0 <= k < old(self).snakes@.len() ==> spec_respawn_phase(
                    old(self).snakes@[k],
                    #[trigger] final(self).snakes@[k],
                    old(self).grid.spec_rows(),
                    old(self).grid.spec_cols(),
                ),
            exists|gs: Seq<Grid>| #[trigger] spec_respawn_stage(
                old(self).snakes@,
                final(self).snakes@,
                gs,
                old(self).grid,
                final(self).grid,
                old(self).grid.spec_rows(),
                old(self).grid.spec_cols(),
            ),
    {
        let ghost rows = old(self).grid.spec_rows();
        let ghost cols = old(self).grid.spec_cols();
        let ghost mut gchain: Seq<Grid> = seq![self.grid];
        let n = self.snakes.len();
        let mut k: usize = 0;
        while k < n
            invariant
                n == self.snakes@.len(),
                n == old(self).snakes@.len(),
                k <= n,
                self.grid.wf(),
                self.grid.spec_rows() == rows,
                self.grid.spec_cols() == cols,
                forall|i: int|
                    0 <= i < n ==> (#[trigger] self.snakes@[i]).wf(rows, cols),
                self.prop_manager == old(self).prop_manager,
                self.prop_manager.wf(rows, cols),
                self.prop_spawn_timer == old(self).prop_spawn_timer,
                self.next_prop_id == old(self).next_prop_id,
                self.next_snake_id == old(self).next_snake_id,
                forall|i: int| k <= i < n ==> self.snakes@[i] == old(self).snakes@[i],
                forall|i: int|
                    0 <= i < n ==> (#[trigger] self.snakes@[i]).id == old(self).snakes@[i].id,
                forall|i: int|
                    0 <= i < k ==> spec_respawn_phase(
                        old(self).snakes@[i],
                        #[trigger] self.snakes@[i],
                        rows,
                        cols,
                    ),
                gchain.len() == k + 1,
                gchain[0] == old(self).grid,
                gchain[k as int] == self.grid,
                forall|i: int|
                    0 <= i < k ==> spec_respawn_step(
                        old(self).snakes@[i],
                        self.snakes@[i],
                        #[trigger] gchain[i],
                        gchain[i + 1],
                        rows,
                        cols,
                    ),
            decreases n - k,
        {
            let ghost g_before = self.grid;
            let sn = &mut self.snakes[k];
            let ghost pre = *sn;
            let dead_and_done = sn.is_dead && sn.should_spawn();
            if dead_and_done {
                sn.remove(&mut self.grid);
                let ghost gv_w = self.grid;
                let id = sn.id;
                let score = sn.score;
                match Self::spawn_snake(&self.grid, id) {
                    Some(mut sn2) => {
                        sn2.score = score;
                        *sn = sn2;
                    },
                    None => {},
                }
                sn.move_body(&mut self.grid);
                proof {
                    assert(gv_w.wf());
                    assert(spec_respawn_step(pre, *sn, g_before, self.grid, rows, cols));
                }
            } else {
                proof {
                    assert(spec_respawn_step(pre, *sn, g_before, self.grid, rows, cols));
                }
            }
            proof {
                assert(pre == old(self).snakes@[k as int]);
                assert(self.snakes@[k as int] == *sn);
                assert(spec_respawn_step(
                    old(self).snakes@[k as int],
                    self.snakes@[k as int],
                    g_before,
                    self.grid,
                    rows,
                    cols,
                ));
                assert(gchain[k as int] == g_before);
                gchain = gchain.push(self.grid);
                assert(gchain[k + 1] == self.grid);
                assert forall|i: int|
                    0 <= i < k + 1 implies spec_respawn_step(
                    old(self).snakes@[i],
                    self.snakes@[i],
                    #[trigger] gchain[i],
                    gchain[i + 1],
                    rows,
                    cols,
                ) by {
                    if i < k {
                        assert(gchain[i] == gchain.drop_last()[i]);
                        assert(gchain[i + 1] == gchain.drop_last()[i + 1]);
                    }
                }
            }
            k = k + 1;
        }
        proof {
            assert(spec_respawn_stage(
                old(self).snakes@,
                self.snakes@,
                gchain,
                old(self).grid,
                self.grid,
                rows,
                cols,
            ));
        }
    }

    /// The full per-tick snapshot: the grid projection plus every snake's
    /// pending animation hints, keyed by snake id.  The hints are
    /// single-consume: handing them out clears them, so a second call
    /// before the next tick returns empty hint maps.
    pub fn get_game_data(&mut self) -> (gd: GameData)
        requires
            old(self).wf(),
        ensures
            final(self).wf(),
            final(self).snakes@.len() == old(self).snakes@.len(),
            forall|k: int|
                0 <= k < old(self).snakes@.len() ==> final(self).snakes@[k] == (Snake {
                    came_from_head: None,
                    came_from_tail: None,
                    ..(#[trigger] old(self).snakes@[k])
                }),
            *final(self) == (GameState { snakes: final(self).snakes, ..*old(self) }),
            gd.grid_data.rows == old(self).grid.spec_rows(),
            gd.grid_data.cols == old(self).grid.spec_cols(),
            gd.grid_data.tags@.len() == old(self).grid.spec_rows(),
            forall|a: int|
                0 <= a < old(self).grid.spec_rows() ==> (#[trigger] gd.grid_data.tags@[a])@.len()
                    == old(self).grid.spec_cols(),
            forall|a: int, b: int|
                0 <= a < old(self).grid.spec_rows() && 0 <= b < old(self).grid.spec_cols()
                    ==> gd.grid_data.tags@[a]@[b] == crate::grid::spec_tag_cell(
                    #[trigger] old(self).grid.cell(a, b),
                ),
            forall|k: int|
                0 <= k < old(self).snakes@.len() ==> match (#[trigger] old(
                    self,
                ).snakes@[k]).came_from_head {
                    Some(x) => gd.came_from_heads@.dom().contains(old(self).snakes@[k].id)
                        && gd.came_from_heads@[old(self).snakes@[k].id] == x,
                    None => !gd.came_from_heads@.dom().contains(old(self).snakes@[k].id),
                },
            forall|k: int|
                0 <= k < old(self).snakes@.len() ==> match (#[trigger] old(
                    self,
                ).snakes@[k]).came_from_tail {
                    Some(x) => gd.came_from_tails@.dom().contains(old(self).snakes@[k].id)
                        && gd.came_from_tails@[old(self).snakes@[k].id] == x,
                    None => !gd.came_from_tails@.dom().contains(old(self).snakes@[k].id),
                },
            forall|id: SnakeID| #[trigger]
                gd.came_from_heads@.dom().contains(id) ==> spec_has_id(old(self).snakes@, id),
            forall|id: SnakeID| #[trigger]
                gd.came_from_tails@.dom().contains(id) ==> spec_has_id(old(self).snakes@, id),
    {
        let mut came_from_heads: HashMap<SnakeID, CameFrom> = HashMap::new();
        let mut came_from_tails: HashMap<SnakeID, CameFrom> = HashMap::new();

        let n = self.snakes.len();
        let mut k: usize = 0;
        while k < n
            invariant
                n == self.snakes@.len(),
                n == old(self).snakes@.len(),
                k <= n,
                self.grid == old(self).grid,
                self.prop_manager == old(self).prop_manager,
                self.prop_spawn_timer == old(self).prop_spawn_timer,
                self.next_prop_id == old(self).next_prop_id,
                self.next_snake_id == old(self).next_snake_id,
                self.wf(),
                forall|i: int|
                    0 <= i < k ==> self.snakes@[i] == (Snake {
                        came_from_head: None,
                        came_from_tail: None,
                        ..(#[trigger] old(self).snakes@[i])
                    }),
                forall|i: int| k <= i < n ==> self.snakes@[i] == old(self).snakes@[i],
                forall|i: int|
                    0 <= i < k ==> match (#[trigger] old(self).snakes@[i]).came_from_head {
                        Some(x) => came_from_heads@.dom().contains(old(self).snakes@[i].id)
                            && came_from_heads@[old(self).snakes@[i].id] == x,
                        None => !came_from_heads@.dom().contains(old(self).snakes@[i].id),
                    },
                forall|i: int|
                    0 <= i < k ==> match (#[trigger] old(self).snakes@[i]).came_from_tail {
                        Some(x) => came_from_tails@.dom().contains(old(self).snakes@[i].id)
                            && came_from_tails@[old(self).snakes@[i].id] == x,
                        None => !came_from_tails@.dom().contains(old(self).snakes@[i].id),
                    },
                forall|id: SnakeID| #[trigger]
                    came_from_heads@.dom().contains(id) ==> exists|i: int|
                        0 <= i < k && (#[trigger] old(self).snakes@[i]).id == id,
                forall|id: SnakeID| #[trigger]
                    came_from_tails@.dom().contains(id) ==> exists|i: int|
                        0 <= i < k && (#[trigger] old(self).snakes@[i]).id == id,
            decreases n - k,
        {
            let sn = &mut self.snakes[k];
            let id = sn.id;
            match sn.came_from_head {
                Some(x) => {
                    came_from_heads.insert(id, x);
                    sn.came_from_head = None;
                },
                None => {},
            }
            match sn.came_from_tail {
                Some(x) => {
                    came_from_tails.insert(id, x);
                    sn.came_from_tail = None;
                },
                None => {},
            }
            k = k + 1;
        }

        let grid_data = self.grid.data();
        GameData { came_from_heads, came_from_tails, grid_data }
    }

    /// The grid snapshot alone.
    pub fn get_grid_data(&self) -> (d: GridData)
        requires
            self.wf(),
        ensures
            d.rows == self.grid.spec_rows(),
            d.cols == self.grid.spec_cols(),
            d.tags@.len() == self.grid.spec_rows(),
            forall|a: int|
                0 <= a < self.grid.spec_rows() ==> (#[trigger] d.tags@[a])@.len()
                    == self.grid.spec_cols(),
            forall|a: int, b: int|
                0 <= a < self.grid.spec_rows() && 0 <= b < self.grid.spec_cols() ==> d.tags@[a]@[b]
                    == crate::grid::spec_tag_cell(#[trigger] self.grid.cell(a, b)),
    {
        self.grid.data()
    }
}

} // verus!
