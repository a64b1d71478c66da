//! The library's stated laws: what the collision resolver, the score rules,
//! the direction buffer, the death countdown and the toroidal step promise,
//! proved once and for all inputs.

use vstd::prelude::*;

use crate::entity::{
    kill_ev, kills_of, others_of, spec_collide_many, Cmd, CollisionError, Entity, PropEvent,
    PropID, PropKind, SnakeEvent, SnakeID,
};
use crate::snake::{spec_turn, Snake};
use crate::util::{spec_wrap, Direction, Index2D, Timer};

verus! {

/// Unfolds the resolver over a two-entity list.
proof fn lemma_collide_pair(a: Entity, b: Entity)
    ensures
        spec_collide_many(seq![a, b]) == if a.spec_is_snake_head() || b.spec_is_snake_head() {
            Ok::<_, CollisionError>(crate::entity::spec_collide(a, b))
        } else {
            Err::<(Option<Entity>, Seq<PropEvent>, Seq<SnakeEvent>), _>(
                CollisionError::MultipleOccupants,
            )
        },
{
    let s = seq![a, b];
    assert(s.len() == 2);
    assert(s[0] == a && s[1] == b);
}

/// Two mortal heads entering the same empty cell in one tick: both are
/// killed and the cell ends empty.
pub proof fn law_two_head_collision(i: SnakeID, j: SnakeID)
    ensures
        spec_collide_many(seq![Entity::SnakeHead(i), Entity::SnakeHead(j)]) == Ok::<
            _,
            CollisionError,
        >((None::<Entity>, Seq::<PropEvent>::empty(), seq![kill_ev(i), kill_ev(j)])),
{
    lemma_collide_pair(Entity::SnakeHead(i), Entity::SnakeHead(j));
}

/// A head entering a cell occupied by another snake's body: the head is
/// killed and the body keeps the cell, whichever way the pair is listed.
pub proof fn law_head_vs_body(i: SnakeID, j: SnakeID)
    ensures
        spec_collide_many(seq![Entity::SnakeHead(i), Entity::SnakeBody(j)]) == Ok::<
            _,
            CollisionError,
        >((Some(Entity::SnakeBody(j)), Seq::<PropEvent>::empty(), seq![kill_ev(i)])),
        spec_collide_many(seq![Entity::SnakeBody(j), Entity::SnakeHead(i)]) == Ok::<
            _,
            CollisionError,
        >((Some(Entity::SnakeBody(j)), Seq::<PropEvent>::empty(), seq![kill_ev(i)])),
{
    lemma_collide_pair(Entity::SnakeHead(i), Entity::SnakeBody(j));
    lemma_collide_pair(Entity::SnakeBody(j), Entity::SnakeHead(i));
}

/// A head entering a grow-prop cell: the prop is removed, the snake gains
/// one growth unit and one point, and the head keeps the cell.
pub proof fn law_head_vs_grow_prop(i: SnakeID, pid: PropID)
    ensures
        spec_collide_many(seq![Entity::SnakeHead(i), Entity::Prop(pid, PropKind::GrowFood)])
            == Ok::<_, CollisionError>(
            (
                Some(Entity::SnakeHead(i)),
                seq![PropEvent::Remove(pid)],
                seq![
                    SnakeEvent { id: i, cmd: Cmd::Grow(1) },
                    SnakeEvent { id: i, cmd: Cmd::GiveScore(1) },
                ],
            ),
        ),
{
    lemma_collide_pair(Entity::SnakeHead(i), Entity::Prop(pid, PropKind::GrowFood));
}

/// A head entering a bad-prop cell: the prop is removed, the snake is
/// killed, and the cell ends empty.
pub proof fn law_head_vs_bad_prop(i: SnakeID, pid: PropID)
    ensures
        spec_collide_many(seq![Entity::SnakeHead(i), Entity::Prop(pid, PropKind::BadFood)]) == Ok::<
            _,
            CollisionError,
        >((None::<Entity>, seq![PropEvent::Remove(pid)], seq![kill_ev(i)])),
{
    lemma_collide_pair(Entity::SnakeHead(i), Entity::Prop(pid, PropKind::BadFood));
}

/// In a list of mortal heads, the partition finds no non-head and one kill
/// per head, in order.
proof fn lemma_all_heads_kills(s: Seq<Entity>)
    requires
        forall|k: int| 0 <= k < s.len() ==> (#[trigger] s[k]).spec_is_snake_head(),
    ensures
        others_of(s).len() == 0,
        kills_of(s).len() == s.len(),
        forall|k: int|
            0 <= k < s.len() ==> kills_of(s)[k] == kill_ev((#[trigger] s[k]).spec_head_id()),
    decreases s.len(),
{
    if s.len() > 0 {
        assert(forall|k: int|
            0 <= k < s.drop_last().len() ==> (#[trigger] s.drop_last()[k]).spec_is_snake_head());
        lemma_all_heads_kills(s.drop_last());
        assert forall|k: int| 0 <= k < s.len() implies kills_of(s)[k] == kill_ev(
            (#[trigger] s[k]).spec_head_id(),
        ) by {
            if k < s.len() - 1 {
                assert(kills_of(s)[k] == kills_of(s.drop_last())[k]);
                assert(s[k] == s.drop_last()[k]);
            } else {
                assert(s[k] == s.last());
            }
        }
    }
}

/// Three or more mortal heads converging on an empty cell: every one of
/// them is killed, in order, and the cell ends empty.
pub proof fn law_many_heads_converging(s: Seq<Entity>)
    requires
        s.len() >= 3,
        forall|k: int| 0 <= k < s.len() ==> (#[trigger] s[k]).spec_is_snake_head(),
    ensures
        spec_collide_many(s) == Ok::<_, CollisionError>(
            (None::<Entity>, Seq::<PropEvent>::empty(), kills_of(s)),
        ),
        kills_of(s).len() == s.len(),
        forall|k: int|
            0 <= k < s.len() ==> kills_of(s)[k] == kill_ev((#[trigger] s[k]).spec_head_id()),
{
    lemma_all_heads_kills(s);
}

/// Kill events do kill.  After a list of events is applied to a roster
/// with strictly increasing ids, a snake is dead exactly when it was dead
/// before or some event in the list is a kill aimed at its id: no other
/// event resurrects or spares it.  Together with the resolver laws this
/// carries "both heads receive `Kill`" through to "both snakes are dead".
pub proof fn law_kill_events_applied(snakes: Seq<Snake>, evs: Seq<SnakeEvent>)
    requires
        crate::state::spec_ids_sorted(snakes),
    ensures
        crate::state::spec_apply_events(snakes, evs).len() == snakes.len(),
        forall|k: int|
            0 <= k < snakes.len() ==> (#[trigger] crate::state::spec_apply_events(
                snakes,
                evs,
            )[k]).id == snakes[k].id,
        forall|k: int|
            0 <= k < snakes.len() ==> ((#[trigger] crate::state::spec_apply_events(
                snakes,
                evs,
            )[k]).is_dead <==> snakes[k].is_dead || exists|t: int|
                0 <= t < evs.len() && evs[t] == kill_ev(snakes[k].id)),
    decreases evs.len(),
{
    if evs.len() > 0 {
        let ev = evs[0];
        let snakes1 = crate::state::spec_apply_event(snakes, ev);
        let rest = evs.subrange(1, evs.len() as int);

        assert forall|k: int| 0 <= k < snakes.len() implies (#[trigger] snakes1[k]).id
            == snakes[k].id && (snakes1[k].is_dead <==> snakes[k].is_dead || ev == kill_ev(
            snakes[k].id,
        )) by {
            if crate::state::spec_has_id(snakes, ev.id) {
                let k0 = crate::state::spec_idx_of(snakes, ev.id);
                assert(0 <= k0 < snakes.len() && snakes[k0].id == ev.id);
                if k == k0 {
                    assert(snakes1[k] == crate::state::spec_apply_cmd(snakes[k], ev.cmd));
                } else {
                    assert(snakes1[k] == snakes[k]);
                    if k < k0 {
                        assert(snakes[k].id < snakes[k0].id);
                    } else {
                        assert(snakes[k0].id < snakes[k].id);
                    }
                }
            } else {
                if snakes[k].id == ev.id {
                    assert(crate::state::spec_has_id(snakes, ev.id));
                }
            }
        }

        law_kill_events_applied(snakes1, rest);

        assert forall|k: int| 0 <= k < snakes.len() implies ((
        #[trigger] crate::state::spec_apply_events(snakes, evs)[k]).is_dead <==> snakes[k].is_dead
            || exists|t: int| 0 <= t < evs.len() && evs[t] == kill_ev(snakes[k].id)) by {
            assert(crate::state::spec_apply_events(snakes, evs) == crate::state::spec_apply_events(
                snakes1,
                rest,
            ));
            let id = snakes[k].id;
            let out = crate::state::spec_apply_events(snakes1, rest);
            if out[k].is_dead {
                if snakes1[k].is_dead {
                    if !snakes[k].is_dead {
                        assert(evs[0] == kill_ev(id));
                    }
                } else {
                    let t1 = choose|t: int|
                        0 <= t < rest.len() && rest[t] == kill_ev(snakes1[k].id);
                    assert(evs[t1 + 1] == kill_ev(id));
                }
            } else {
                if exists|t: int| 0 <= t < evs.len() && evs[t] == kill_ev(id) {
                    let t = choose|t: int| 0 <= t < evs.len() && evs[t] == kill_ev(id);
                    if t == 0 {
                        assert(snakes1[k].is_dead);
                        assert(out[k].is_dead);
                    } else {
                        assert(rest[t - 1] == kill_ev(snakes1[k].id));
                        assert(out[k].is_dead);
                    }
                }
            }
        }
    }
}

/// The timer after `n` ticks.
pub open spec fn spec_ticked_n(t: Timer, n: nat) -> Timer
    decreases n,
{
    if n == 0 {
        t
    } else {
        spec_ticked_n(t, (n - 1) as nat).spec_ticked()
    }
}

/// A fresh countdown of limit `m` completes after exactly `m` ticks: not
/// one earlier, and it stays complete afterwards.
pub proof fn law_countdown_exact(m: usize, n: nat)
    ensures
        spec_ticked_n(Timer { elapsed: 0, limit: m }, n).spec_is_done() <==> n >= m,
    decreases n,
{
    if n > 0 {
        law_countdown_exact(m, (n - 1) as nat);
        lemma_ticked_n_elapsed(Timer { elapsed: 0, limit: m }, (n - 1) as nat);
    }
}

/// While a countdown runs, `elapsed` counts the ticks made, capped at the
/// limit.
proof fn lemma_ticked_n_elapsed(t: Timer, n: nat)
    requires
        t.elapsed == 0,
    ensures
        spec_ticked_n(t, n).limit == t.limit,
        spec_ticked_n(t, n).elapsed == if n <= t.limit {
            n
        } else {
            t.limit as nat
        },
    decreases n,
{
    if n > 0 {
        lemma_ticked_n_elapsed(t, (n - 1) as nat);
    }
}

/// Killing a snake with body length `L` arms a countdown that completes
/// after exactly `L + 1` ticks — one per trail cell plus one for the dummy
/// tail — and not one tick earlier.
pub proof fn law_death_countdown(s: Snake, n: nat)
    requires
        s.body@.len() + 1 <= usize::MAX,
    ensures
        s.spec_killed().death_timer matches Some(t) && (spec_ticked_n(t, n).spec_is_done() <==> n
            >= s.body@.len() + 1),
{
    let t = s.spec_killed().death_timer.unwrap();
    assert(t.limit == s.body@.len() + 1);
    law_countdown_exact(t.limit, n);
}

/// The score floor: however negative the delta, the clamped score is never
/// below zero, and a non-negative sum is kept exactly (up to the machine
/// cap).
pub proof fn law_score_floor(s: Snake, delta: int)
    ensures
        s.spec_scored(delta).score >= 0,
        s.score + delta <= 0 ==> s.spec_scored(delta).score == 0,
        0 <= s.score + delta <= usize::MAX ==> s.spec_scored(delta).score == s.score + delta,
{
}

/// Direction buffering: a reversal (or repeat) of the current direction is
/// ignored; exactly the perpendicular requests take effect.
pub proof fn law_direction_buffering(curr: Direction, next: Direction)
    ensures
        !curr.spec_perpendicular(next) ==> spec_turn(curr, Some(next)) == curr,
        curr.spec_perpendicular(next) ==> spec_turn(curr, Some(next)) == next,
        spec_turn(curr, None) == curr,
{
}

/// The toroidal step: a head moving off the last row or column (or below
/// the first) reappears on the opposite edge of the same axis, and a step
/// that stays inside the grid is kept as it is.
pub proof fn law_toroidal_wrap(p: Index2D, rows: int, cols: int)
    requires
        p.spec_in_bounds(rows, cols),
        rows <= i32::MAX,
        cols <= i32::MAX,
    ensures
        p.0 == 0 ==> p.spec_neighbor(Direction::Up).spec_wrapped(0, rows, 0, cols).0 == rows - 1,
        p.0 == rows - 1 ==> p.spec_neighbor(Direction::Down).spec_wrapped(0, rows, 0, cols).0 == 0,
        p.1 == 0 ==> p.spec_neighbor(Direction::Left).spec_wrapped(0, rows, 0, cols).1 == cols - 1,
        p.1 == cols - 1 ==> p.spec_neighbor(Direction::Right).spec_wrapped(0, rows, 0, cols).1
            == 0,
        p.0 > 0 ==> p.spec_neighbor(Direction::Up).spec_wrapped(0, rows, 0, cols) == Index2D(
            (p.0 - 1) as i32,
            p.1,
        ),
        p.0 < rows - 1 ==> p.spec_neighbor(Direction::Down).spec_wrapped(0, rows, 0, cols)
            == Index2D((p.0 + 1) as i32, p.1),
        p.1 > 0 ==> p.spec_neighbor(Direction::Left).spec_wrapped(0, rows, 0, cols) == Index2D(
            p.0,
            (p.1 - 1) as i32,
        ),
        p.1 < cols - 1 ==> p.spec_neighbor(Direction::Right).spec_wrapped(0, rows, 0, cols)
            == Index2D(p.0, (p.1 + 1) as i32),
{
    assert(spec_wrap(p.0 - 1, 0, rows) == if p.0 == 0 {
        rows - 1
    } else {
        p.0 - 1
    });
}

} // verus!
