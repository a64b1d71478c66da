//! The per-agent state machine: position, body trail, growth queue,
//! direction buffering, death and respawn timers, and the animation hints
//! handed to consumers.

use vstd::prelude::*;

use std::collections::VecDeque;

use crate::entity::{Entity, SnakeID};
use crate::grid::Grid;
use crate::util::{Direction, Index2D, Timer};

verus! {

/// How many ticks a freshly spawned snake stays invulnerable.
pub const SPAWN_TIMER_LIMIT: usize = 5;

/// An animation hint pairing a cell's new position with the one it came
/// from.  `Real` marks a live cell that moved; `Dummy` marks a vacated cell
/// with no successor.
#[derive(Debug, Clone, Copy, PartialEq, Eq)]
pub enum CameFrom {
    Real(((u32, u32), (u32, u32))),
    Dummy(((u32, u32), (u32, u32))),
}

/// The `(row, column)` pair of an in-bounds index, as handed to consumers.
pub open spec fn u32_pair(idx: Index2D) -> (u32, u32) {
    (idx.0 as u32, idx.1 as u32)
}

/// Addition capped at the machine limit; the cap itself is unreachable in
/// any real game.
pub open spec fn sat_add_usize(a: int, b: int) -> usize {
    if a + b > usize::MAX {
        usize::MAX
    } else {
        (a + b) as usize
    }
}

/// The direction a moving head turns to: a buffered request is honoured
/// only if it is perpendicular to the current direction, so a reversal is
/// ignored.
pub open spec fn spec_turn(curr: Direction, next: Option<Direction>) -> Direction {
    match next {
        Some(d) => if curr.spec_perpendicular(d) {
            d
        } else {
            curr
        },
        None => curr,
    }
}

/// The timer phase of one snake's step (what `tick` does to the snake):
/// the spawn window advances one step, and a running death countdown
/// advances while the trail loses its cell nearest the head, leaving a
/// tail hint.  Everything else is untouched.
pub open spec fn spec_timer_phase(pre: Snake, post: Snake) -> bool {
    &&& post.id == pre.id
    &&& post.pos == pre.pos
    &&& post.prev_last == pre.prev_last
    &&& post.is_dead == pre.is_dead
    &&& post.score == pre.score
    &&& post.grow_count == pre.grow_count
    &&& post.curr_dir == pre.curr_dir
    &&& post.next_dir == pre.next_dir
    &&& post.came_from_head == pre.came_from_head
    &&& post.spawn_timer == pre.spawn_timer.spec_ticked()
    &&& match pre.death_timer {
        None => {
            &&& post.death_timer is None
            &&& post.body@ == pre.body@
            &&& post.came_from_tail == pre.came_from_tail
        },
        Some(t) => if t.spec_is_done() {
            &&& post.death_timer == Some(t)
            &&& post.body@ == pre.body@
            &&& post.came_from_tail == pre.came_from_tail
        } else {
            &&& post.death_timer == Some(t.spec_ticked())
            &&& if pre.body@.len() == 0 {
                &&& post.body@ == pre.body@
                &&& post.came_from_tail == pre.came_from_tail
            } else {
                &&& post.body@ == pre.body@.subrange(1, pre.body@.len() as int)
                &&& post.came_from_tail == Some(
                    if pre.body@.len() > 1 {
                        CameFrom::Real((u32_pair(pre.body@[1]), u32_pair(pre.body@[0])))
                    } else {
                        CameFrom::Dummy((u32_pair(pre.prev_last), u32_pair(pre.body@[0])))
                    },
                )
            }
        },
    }
}

/// The trail phase of a living snake's step (what `move_body` does to the
/// snake): an immortal head only records its hint; a mortal one turns its
/// head cell into trail and either consumes a growth unit or sheds its
/// tail.
pub open spec fn spec_move_phase(pre: Snake, post: Snake) -> bool {
    &&& post.id == pre.id
    &&& post.pos == pre.pos
    &&& post.is_dead == pre.is_dead
    &&& post.death_timer == pre.death_timer
    &&& post.spawn_timer == pre.spawn_timer
    &&& post.score == pre.score
    &&& post.curr_dir == pre.curr_dir
    &&& post.next_dir == pre.next_dir
    &&& if !pre.spawn_timer.spec_is_done() {
        &&& post.came_from_head == Some(CameFrom::Real((u32_pair(pre.pos), u32_pair(pre.pos))))
        &&& post.body@ == pre.body@
        &&& post.grow_count == pre.grow_count
        &&& post.prev_last == pre.prev_last
        &&& post.came_from_tail == pre.came_from_tail
    } else {
        let pushed = seq![pre.pos] + pre.body@;
        &&& post.came_from_head == pre.came_from_head
        &&& match pre.grow_count {
            Some(g) => {
                &&& post.body@ == pushed
                &&& post.grow_count == if g == 1 {
                    Option::<usize>::None
                } else {
                    Some((g - 1) as usize)
                }
                &&& post.prev_last == pre.prev_last
                &&& post.came_from_tail == pre.came_from_tail
            },
            None => {
                let last = pushed.last();
                let kept = pushed.drop_last();
                &&& post.body@ == kept
                &&& post.grow_count is None
                &&& post.prev_last == last
                &&& post.came_from_tail == if kept.len() > 0 {
                    Some(CameFrom::Real((u32_pair(kept.last()), u32_pair(last))))
                } else {
                    pre.came_from_tail
                }
            },
        }
    }
}

impl Snake {
    /// The movement phase of a living snake's step (what `tick_head` does):
    /// a mortal head applies its buffered turn and takes one toroidal step,
    /// recording where it came from; an immortal head stands still.
    pub open spec fn spec_head_stepped(self, rows: int, cols: int) -> Snake {
        if !self.spawn_timer.spec_is_done() {
            self
        } else {
            let dir = spec_turn(self.curr_dir, self.next_dir);
            let new_pos = self.pos.spec_neighbor(dir).spec_wrapped(0, rows, 0, cols);
            Snake {
                pos: new_pos,
                curr_dir: dir,
                next_dir: None,
                came_from_head: Some(CameFrom::Real((u32_pair(new_pos), u32_pair(self.pos)))),
                ..self
            }
        }
    }
}

/// One snake's whole per-tick state machine, as the orchestrator runs it:
/// the timer phase, then — for the living only — the trail phase and one
/// head step.
pub open spec fn spec_stepped_from(pre: Snake, post: Snake, rows: int, cols: int) -> bool {
    exists|a: Snake|
        #[trigger] spec_timer_phase(pre, a) && if a.is_dead {
            spec_like(post, a)
        } else {
            exists|b: Snake|
                #[trigger] spec_move_phase(a, b) && spec_like(
                    post,
                    b.spec_head_stepped(rows, cols),
                )
        }
}

/// Field-for-field equality, with the trail compared by its contents.
pub open spec fn spec_like(a: Snake, b: Snake) -> bool {
    &&& a.id == b.id
    &&& a.pos == b.pos
    &&& a.prev_last == b.prev_last
    &&& a.is_dead == b.is_dead
    &&& a.death_timer == b.death_timer
    &&& a.spawn_timer == b.spawn_timer
    &&& a.score == b.score
    &&& a.body@ == b.body@
    &&& a.grow_count == b.grow_count
    &&& a.curr_dir == b.curr_dir
    &&& a.next_dir == b.next_dir
    &&& a.came_from_head == b.came_from_head
    &&& a.came_from_tail == b.came_from_tail
}

pub struct Snake {
    pub id: SnakeID,
    /// The head cell.
    pub pos: Index2D,
    /// The last vacated tail cell, kept for the dummy tail hint.
    pub prev_last: Index2D,
    pub is_dead: bool,
    /// Set by a kill; counts down while the body is shed.
    pub death_timer: Option<Timer>,
    /// Counts down the invulnerability window after a spawn.
    pub spawn_timer: Timer,
    pub score: usize,
    /// The trail cells, head end first.
    pub body: VecDeque<Index2D>,
    /// Pending growth units, always positive when present.
    pub grow_count: Option<usize>,
    pub curr_dir: Direction,
    /// A buffered turn, applied on the next tick if perpendicular.
    pub next_dir: Option<Direction>,
    pub came_from_head: Option<CameFrom>,
    pub came_from_tail: Option<CameFrom>,
}

impl Snake {
    /// Well-formed with respect to an `rows` by `cols` grid: every cell the
    /// snake refers to is in bounds and pending growth is positive.
    pub open spec fn wf(self, rows: int, cols: int) -> bool {
        &&& self.pos.spec_in_bounds(rows, cols)
        &&& self.prev_last.spec_in_bounds(rows, cols)
        &&& forall|k: int|
            0 <= k < self.body@.len() ==> (#[trigger] self.body@[k]).spec_in_bounds(rows, cols)
        &&& match self.grow_count {
            Some(g) => g >= 1,
            None => true,
        }
    }

    /// A fresh snake: no trail yet, one unit of pending growth, a full
    /// invulnerability window, and the given travel direction.
    pub fn new_at(id: SnakeID, pos: Index2D, dir: Direction) -> (s: Snake)
        ensures
            s.id == id,
            s.pos == pos,
            s.prev_last == pos,
            !s.is_dead,
            s.death_timer is None,
            s.spawn_timer == (Timer { elapsed: 0, limit: SPAWN_TIMER_LIMIT as usize }),
            s.score == 0,
            s.body@ == Seq::<Index2D>::empty(),
            s.grow_count == Some(1usize),
            s.curr_dir == dir,
            s.next_dir is None,
            s.came_from_head is None,
            s.came_from_tail is None,
    {
        let body: VecDeque<Index2D> = VecDeque::new();
        proof {
            assert(body@ =~= Seq::<Index2D>::empty());
        }
        Snake {
            id,
            pos,
            prev_last: pos,
            is_dead: false,
            death_timer: None,
            spawn_timer: Timer::new(SPAWN_TIMER_LIMIT),
            score: 0,
            body,
            grow_count: Some(1),
            curr_dir: dir,
            next_dir: None,
            came_from_head: None,
            came_from_tail: None,
        }
    }

    /// A fresh snake heading in a random direction.
    pub fn new(id: SnakeID, pos: Index2D) -> (s: Snake)
        ensures
            s.id == id,
            s.pos == pos,
            s.prev_last == pos,
            !s.is_dead,
            s.death_timer is None,
            s.spawn_timer == (Timer { elapsed: 0, limit: SPAWN_TIMER_LIMIT as usize }),
            s.score == 0,
            s.body@ == Seq::<Index2D>::empty(),
            s.grow_count == Some(1usize),
            s.next_dir is None,
            s.came_from_head is None,
            s.came_from_tail is None,
    {
        Snake::new_at(id, pos, Direction::rand())
    }

    /// The snake with `delta` added to its score, clamped to a floor of
    /// zero (and to the machine limit above).
    pub open spec fn spec_scored(self, delta: int) -> Snake {
        Snake {
            score: if self.score + delta < 0 {
                0usize
            } else {
                sat_add_usize(self.score as int, delta)
            },
            ..self
        }
    }

    /// The snake with `n` growth units queued on top of what is pending.
    pub open spec fn spec_grown(self, n: int) -> Snake {
        Snake {
            grow_count: Some(
                sat_add_usize(
                    match self.grow_count {
                        Some(m) => m as int,
                        None => 0,
                    },
                    n,
                ),
            ),
            ..self
        }
    }

    /// The snake marked dead, its death countdown set to one tick per body
    /// cell plus one for the dummy tail.
    pub open spec fn spec_killed(self) -> Snake {
        Snake {
            is_dead: true,
            death_timer: Some(
                Timer { elapsed: 0, limit: sat_add_usize(1, self.body@.len() as int) },
            ),
            ..self
        }
    }

    /// Add `delta` to the score, clamped to a floor of zero (and to the
    /// machine limit above).
    pub fn give_score(&mut self, score: i32)
        ensures
            *final(self) == old(self).spec_scored(score as int),
    {
        if score >= 0 {
            let d = score as usize;
            if self.score <= usize::MAX - d {
                self.score = self.score + d;
            } else {
                self.score = usize::MAX;
            }
        } else {
            let d = (-(score as i64)) as usize;
            if self.score >= d {
                self.score = self.score - d;
            } else {
                self.score = 0;
            }
        }
    }

    /// Queue `n` units of pending growth on top of whatever is pending.
    pub fn grow(&mut self, n: usize)
        requires
            n >= 1,
        ensures
            *final(self) == old(self).spec_grown(n as int),
    {
        self.grow_count = match self.grow_count {
            None => Some(n),
            Some(m) => if m <= usize::MAX - n {
                Some(m + n)
            } else {
                Some(usize::MAX)
            },
        };
    }

    /// Mark the snake dead and start the death countdown: one tick per body
    /// cell plus one for the dummy tail.
    pub fn kill(&mut self)
        ensures
            *final(self) == old(self).spec_killed(),
    {
        self.is_dead = true;
        let len = self.body.len();
        let limit = if len <= usize::MAX - 1 {
            1 + len
        } else {
            usize::MAX
        };
        self.death_timer = Some(Timer::new(limit));
    }

    /// True once the death countdown has completed and a replacement should
    /// spawn.
    pub fn should_spawn(&self) -> (r: bool)
        ensures
            r == match self.death_timer {
                Some(t) => t.spec_is_done(),
                None => false,
            },
    {
        match &self.death_timer {
            Some(t) => t.is_done(),
            None => false,
        }
    }

    pub open spec fn spec_is_mortal(self) -> bool {
        self.spawn_timer.spec_is_done() && !self.is_dead
    }

    pub fn is_mortal(&self) -> (r: bool)
        ensures
            r == self.spec_is_mortal(),
    {
        self.spawn_timer.is_done() && !self.is_dead
    }

    /// Request a turn: buffered for the next tick once mortal, applied
    /// immediately while still in the spawn window.
    pub fn give_direction(&mut self, dir: Direction)
        ensures
            *final(self) == if old(self).spawn_timer.spec_is_done() {
                Snake { next_dir: Some(dir), ..*old(self) }
            } else {
                Snake { curr_dir: dir, ..*old(self) }
            },
    {
        if self.spawn_timer.is_done() {
            self.next_dir = Some(dir);
        } else {
            self.curr_dir = dir;
        }
    }

    /// Advance the timers one tick.  While the death countdown runs, shed
    /// one tail cell per tick and record where the tail came from: a `Real`
    /// hint while trail remains, a `Dummy` hint for the final vacated cell.
    pub fn tick(&mut self, grid: &mut Grid)
        requires
            old(grid).wf(),
            old(self).wf(old(grid).spec_rows(), old(grid).spec_cols()),
        ensures
            final(grid).wf(),
            final(grid).spec_rows() == old(grid).spec_rows(),
            final(grid).spec_cols() == old(grid).spec_cols(),
            final(self).wf(old(grid).spec_rows(), old(grid).spec_cols()),
            final(self).id == old(self).id,
            final(self).pos == old(self).pos,
            final(self).prev_last == old(self).prev_last,
            final(self).is_dead == old(self).is_dead,
            final(self).score == old(self).score,
            final(self).grow_count == old(self).grow_count,
            final(self).curr_dir == old(self).curr_dir,
            final(self).next_dir == old(self).next_dir,
            final(self).came_from_head == old(self).came_from_head,
            final(self).spawn_timer == old(self).spawn_timer.spec_ticked(),
            match old(self).death_timer {
                None => {
                    &&& final(self).death_timer is None
                    &&& final(self).body@ == old(self).body@
                    &&& final(self).came_from_tail == old(self).came_from_tail
                    &&& *final(grid) == *old(grid)
                },
                Some(t) => if t.spec_is_done() {
                    &&& final(self).death_timer == Some(t)
                    &&& final(self).body@ == old(self).body@
                    &&& final(self).came_from_tail == old(self).came_from_tail
                    &&& *final(grid) == *old(grid)
                } else {
                    &&& final(self).death_timer == Some(t.spec_ticked())
                    &&& if old(self).body@.len() == 0 {
                        &&& final(self).body@ == old(self).body@
                        &&& final(self).came_from_tail == old(self).came_from_tail
                        &&& *final(grid) == *old(grid)
                    } else {
                        &&& final(self).body@ == old(self).body@.subrange(
                            1,
                            old(self).body@.len() as int,
                        )
                        &&& final(grid).cell(
                            old(self).body@[0].0 as int,
                            old(self).body@[0].1 as int,
                        ) is None
                        &&& forall|a: int, b: int|
                            0 <= a < old(grid).spec_rows() && 0 <= b < old(grid).spec_cols() && !(a
                                == old(self).body@[0].0 && b == old(self).body@[0].1) ==> final(grid).cell(a, b) == old(grid).cell(a, b)
                        &&& final(self).came_from_tail == Some(
                            if old(self).body@.len() > 1 {
                                CameFrom::Real(
                                    (u32_pair(old(self).body@[1]), u32_pair(old(self).body@[0])),
                                )
                            } else {
                                CameFrom::Dummy(
                                    (u32_pair(old(self).prev_last), u32_pair(old(self).body@[0])),
                                )
                            },
                        )
                    }
                },
            },
    {
        if !self.spawn_timer.is_done() {
            self.spawn_timer.tick();
        }

        match self.death_timer {
            Some(timer) => {
                if !timer.is_done() {
                    let mut ticked = timer;
                    ticked.tick();
                    self.death_timer = Some(ticked);

                    match self.body.pop_front() {
                        Some(first) => {
                            grid.remove(first);
                            let first_u = first.get_u32();
                            if self.body.len() > 0 {
                                let new_first = self.body[0];
                                self.came_from_tail = Some(
                                    CameFrom::Real((new_first.get_u32(), first_u)),
                                );
                            } else {
                                self.came_from_tail = Some(
                                    CameFrom::Dummy((self.prev_last.get_u32(), first_u)),
                                );
                            }
                        },
                        None => {},
                    }
                }
            },
            None => {},
        }
    }

    /// Vacate the head cell before the body moves; an immortal head is
    /// never on the grid as a separate head, so nothing is removed until
    /// the spawn window has closed.
    pub fn remove_head(&self, grid: &mut Grid)
        requires
            old(grid).wf(),
            self.wf(old(grid).spec_rows(), old(grid).spec_cols()),
        ensures
            final(grid).wf(),
            final(grid).spec_rows() == old(grid).spec_rows(),
            final(grid).spec_cols() == old(grid).spec_cols(),
            if self.spawn_timer.spec_is_done() {
                &&& final(grid).cell(self.pos.0 as int, self.pos.1 as int) is None
                &&& forall|a: int, b: int|
                    0 <= a < old(grid).spec_rows() && 0 <= b < old(grid).spec_cols() && !(a
                        == self.pos.0 && b == self.pos.1) ==> final(grid).cell(a, b) == old(grid).cell(a, b)
            } else {
                *final(grid) == *old(grid)
            },
    {
        if self.spawn_timer.is_done() {
            grid.remove(self.pos);
        }
    }

    /// Move the trail under the head.  While immortal the head just
    /// re-occupies its cell; once mortal the head cell becomes trail, and
    /// either one pending growth unit is consumed or the oldest tail cell
    /// is vacated.
    pub fn move_body(&mut self, grid: &mut Grid)
        requires
            old(grid).wf(),
            old(self).wf(old(grid).spec_rows(), old(grid).spec_cols()),
        ensures
            final(grid).wf(),
            final(grid).spec_rows() == old(grid).spec_rows(),
            final(grid).spec_cols() == old(grid).spec_cols(),
            final(self).wf(old(grid).spec_rows(), old(grid).spec_cols()),
            final(self).id == old(self).id,
            final(self).pos == old(self).pos,
            final(self).is_dead == old(self).is_dead,
            final(self).death_timer == old(self).death_timer,
            final(self).spawn_timer == old(self).spawn_timer,
            final(self).score == old(self).score,
            final(self).curr_dir == old(self).curr_dir,
            final(self).next_dir == old(self).next_dir,
            if !old(self).spawn_timer.spec_is_done() {
                &&& *final(self) == (Snake {
                    came_from_head: Some(
                        CameFrom::Real((u32_pair(old(self).pos), u32_pair(old(self).pos))),
                    ),
                    ..*old(self)
                })
                &&& final(grid).cell(old(self).pos.0 as int, old(self).pos.1 as int) == Some(
                    Entity::ImmortalSnakeHead(old(self).id),
                )
                &&& forall|a: int, b: int|
                    0 <= a < old(grid).spec_rows() && 0 <= b < old(grid).spec_cols() && !(a
                        == old(self).pos.0 && b == old(self).pos.1) ==> final(grid).cell(a, b)
                        == old(grid).cell(a, b)
            } else {
                let pushed = seq![old(self).pos] + old(self).body@;
                &&& final(self).came_from_head == old(self).came_from_head
                &&& match old(self).grow_count {
                    Some(g) => {
                        &&& final(self).body@ == pushed
                        &&& final(self).grow_count == if g == 1 {
                            Option::<usize>::None
                        } else {
                            Some((g - 1) as usize)
                        }
                        &&& final(self).prev_last == old(self).prev_last
                        &&& final(self).came_from_tail == old(self).came_from_tail
                        &&& final(grid).cell(old(self).pos.0 as int, old(self).pos.1 as int)
                            == Some(Entity::SnakeBody(old(self).id))
                        &&& forall|a: int, b: int|
                            0 <= a < old(grid).spec_rows() && 0 <= b < old(grid).spec_cols() && !(
                            a == old(self).pos.0 && b == old(self).pos.1) ==> final(grid).cell(
                                a,
                                b,
                            ) == old(grid).cell(a, b)
                    },
                    None => {
                        let last = pushed.last();
                        let kept = pushed.drop_last();
                        &&& final(self).body@ == kept
                        &&& final(self).grow_count is None
                        &&& final(self).prev_last == last
                        &&& final(self).came_from_tail == if kept.len() > 0 {
                            Some(CameFrom::Real((u32_pair(kept.last()), u32_pair(last))))
                        } else {
                            old(self).came_from_tail
                        }
                        &&& forall|a: int, b: int|
                            0 <= a < old(grid).spec_rows() && 0 <= b < old(grid).spec_cols()
                                ==> final(grid).cell(a, b) == if a == last.0 && b == last.1 {
                                Option::<Entity>::None
                            } else if a == old(self).pos.0 && b == old(self).pos.1 {
                                Some(Entity::SnakeBody(old(self).id))
                            } else {
                                old(grid).cell(a, b)
                            }
                    },
                }
            },
    {
        if !self.spawn_timer.is_done() {
            grid.add(self.pos, Entity::ImmortalSnakeHead(self.id));
            let p = self.pos.get_u32();
            self.came_from_head = Some(CameFrom::Real((p, p)));
            return ;
        }

        self.body.push_front(self.pos);
        grid.add(self.pos, Entity::SnakeBody(self.id));

        match self.grow_count {
            Some(x) => {
                self.grow_count = if x == 1 {
                    None
                } else {
                    Some(x - 1)
                };
            },
            None => {
                let last = match self.body.pop_back() {
                    Some(l) => l,
                    None => unreached(),
                };
                grid.remove(last);

                if self.body.len() > 0 {
                    let new_last = self.body[self.body.len() - 1];
                    self.came_from_tail = Some(
                        CameFrom::Real((new_last.get_u32(), last.get_u32())),
                    );
                }
                self.prev_last = last;
            },
        }
    }

    /// Move the head one cell: apply the buffered turn, step in the current
    /// direction, wrap around the edges, and record where the head came
    /// from.  Heads inside the spawn window do not move.
    pub fn tick_head(&mut self, grid: &Grid)
        requires
            grid.wf(),
            old(self).wf(grid.spec_rows(), grid.spec_cols()),
        ensures
            final(self).wf(grid.spec_rows(), grid.spec_cols()),
            if !old(self).spawn_timer.spec_is_done() {
                *final(self) == *old(self)
            } else {
                let dir = spec_turn(old(self).curr_dir, old(self).next_dir);
                let new_pos = old(self).pos.spec_neighbor(dir).spec_wrapped(
                    0,
                    grid.spec_rows(),
                    0,
                    grid.spec_cols(),
                );
                *final(self) == (Snake {
                    pos: new_pos,
                    curr_dir: dir,
                    next_dir: None,
                    came_from_head: Some(
                        CameFrom::Real((u32_pair(new_pos), u32_pair(old(self).pos))),
                    ),
                    ..*old(self)
                })
            },
    {
        if !self.spawn_timer.is_done() {
            return ;
        }

        let prev_pos = self.pos.get_u32();

        self.tick_dir();
        self.pos = self.pos.neighbor(&self.curr_dir).wrap((0, grid.rows()), (0, grid.cols()));

        self.came_from_head = Some(CameFrom::Real((self.pos.get_u32(), prev_pos)));
    }

    /// Vacate every remaining trail cell and clear the trail, leaving the
    /// rest of the snake untouched.
    pub fn remove(&mut self, grid: &mut Grid)
        requires
            old(grid).wf(),
            old(self).wf(old(grid).spec_rows(), old(grid).spec_cols()),
        ensures
            final(grid).wf(),
            final(grid).spec_rows() == old(grid).spec_rows(),
            final(grid).spec_cols() == old(grid).spec_cols(),
            final(self).wf(old(grid).spec_rows(), old(grid).spec_cols()),
            *final(self) == (Snake { body: final(self).body, ..*old(self) }),
            final(self).body@.len() == 0,
            forall|a: int, b: int|
                0 <= a < old(grid).spec_rows() && 0 <= b < old(grid).spec_cols() ==> final(grid).cell(a, b) == if seq_holds_cell(old(self).body@, old(self).body@.len() as int, a, b) {
                    Option::<Entity>::None
                } else {
                    old(grid).cell(a, b)
                },
    {
        let n = self.body.len();
        let mut k: usize = 0;
        while k < n
            invariant
                grid.wf(),
                grid.spec_rows() == old(grid).spec_rows(),
                grid.spec_cols() == old(grid).spec_cols(),
                self == old(self),
                self.wf(old(grid).spec_rows(), old(grid).spec_cols()),
                n == self.body@.len(),
                k <= n,
                forall|a: int, b: int|
                    0 <= a < old(grid).spec_rows() && 0 <= b < old(grid).spec_cols()
                        ==> grid.cell(a, b) == if seq_holds_cell(self.body@, k as int, a, b) {
                        Option::<Entity>::None
                    } else {
                        old(grid).cell(a, b)
                    },
            decreases n - k,
        {
            let idx = self.body[k];
            grid.remove(idx);
            k = k + 1;
        }
        self.body.clear();
    }
}

/// Whether one of the first `k` cells of `body` is `(a, b)`.
pub open spec fn seq_holds_cell(body: Seq<Index2D>, k: int, a: int, b: int) -> bool {
    exists|t: int| 0 <= t < k && (#[trigger] body[t]).0 == a && body[t].1 == b
}

impl Snake {
    /// Consume the buffered turn: perpendicular requests take effect, a
    /// reversal or repeat is dropped.
    pub fn tick_dir(&mut self)
        ensures
            *final(self) == (Snake {
                curr_dir: spec_turn(old(self).curr_dir, old(self).next_dir),
                next_dir: None,
                ..*old(self)
            }),
    {
        let next = self.next_dir;
        self.next_dir = None;
        match next {
            Some(next_dir) => {
                let take = match self.curr_dir {
                    Direction::Up | Direction::Down => match next_dir {
                        Direction::Left | Direction::Right => true,
                        _ => false,
                    },
                    Direction::Left | Direction::Right => match next_dir {
                        Direction::Up | Direction::Down => true,
                        _ => false,
                    },
                };
                if take {
                    self.curr_dir = next_dir;
                }
            },
            None => {},
        }
    }
}

} // verus!
