//! Cell occupants and the collision resolver: what lives in a grid cell and
//! what happens when several occupants contend for one cell in a single tick.

use vstd::prelude::*;

use crate::util::Timer;

verus! {

pub type ID = u64;

pub type SnakeID = u64;

pub type PropID = u64;

/// Per-snake data a buff would act on.  The buff catalog is empty, so this
/// carries nothing yet.
pub struct SnakeData {}

/// An effect to apply to one snake after collision resolution.
#[derive(Debug, Clone, Copy, PartialEq, Eq, Structural)]
pub enum Cmd {
    Kill,
    GiveScore(i32),
    /// Pending growth; the unit count is always positive.
    Grow(usize),
}

#[derive(Debug, Clone, Copy, PartialEq, Eq, Structural)]
pub struct SnakeEvent {
    pub id: SnakeID,
    pub cmd: Cmd,
}

/// Bookkeeping signal: a prop was consumed or expired and the manager must
/// drop its record.
#[derive(Debug, Clone, Copy, PartialEq, Eq, Structural)]
pub enum PropEvent {
    Remove(PropID),
}

/// The read-only projection of a cell's occupant handed to consumers.
#[derive(Debug, Clone, Copy, PartialEq, Eq, Structural)]
pub enum Kind {
    /// The cell holds nothing.
    Empty,
    Prop,
    SnakeHead,
    SnakeBody,
}

#[derive(Debug, Clone, Copy, PartialEq, Eq, Structural)]
pub struct Tag {
    pub kind: Kind,
    pub id: ID,
}

/// What a prop does to itself and to the head that hits it.
#[derive(Debug, Clone, Copy, PartialEq, Eq, Structural)]
pub enum CollisionResult {
    /// The prop is removed, the head survives.
    RemoveSelf,
    /// Both are removed.
    RemoveBoth,
    /// The prop survives and keeps the cell.
    RemoveOther,
}

/// How many ticks a spawned prop lives before it expires.
pub const PROP_LIFETIME: usize = 20;

/// The closed catalog of props: a collectible that grows the snake and a
/// hazard that kills it.
#[derive(Debug, Clone, Copy, PartialEq, Eq, Structural)]
pub enum PropKind {
    GrowFood,
    BadFood,
}

impl PropKind {
    pub open spec fn spec_collision_result(self) -> CollisionResult {
        match self {
            PropKind::BadFood => CollisionResult::RemoveBoth,
            PropKind::GrowFood => CollisionResult::RemoveSelf,
        }
    }

    /// The events the prop hands to the single head that collided with it.
    pub open spec fn spec_collision_events(self, id: SnakeID) -> Seq<SnakeEvent> {
        match self {
            PropKind::BadFood => seq![SnakeEvent { id, cmd: Cmd::Kill }],
            PropKind::GrowFood => seq![
                SnakeEvent { id, cmd: Cmd::Grow(1) },
                SnakeEvent { id, cmd: Cmd::GiveScore(1) },
            ],
        }
    }

    pub fn collision_result(&self) -> (r: CollisionResult)
        ensures
            r == self.spec_collision_result(),
    {
        match self {
            PropKind::BadFood => CollisionResult::RemoveBoth,
            PropKind::GrowFood => CollisionResult::RemoveSelf,
        }
    }

    pub fn collision_events(&self, id: SnakeID) -> (evs: Vec<SnakeEvent>)
        ensures
            evs@ == self.spec_collision_events(id),
    {
        match self {
            PropKind::BadFood => {
                let mut evs: Vec<SnakeEvent> = Vec::new();
                evs.push(SnakeEvent { id, cmd: Cmd::Kill });
                proof {
                    assert(evs@ =~= self.spec_collision_events(id));
                }
                evs
            },
            PropKind::GrowFood => {
                let mut evs: Vec<SnakeEvent> = Vec::new();
                evs.push(SnakeEvent { id, cmd: Cmd::Grow(1) });
                evs.push(SnakeEvent { id, cmd: Cmd::GiveScore(1) });
                proof {
                    assert(evs@ =~= self.spec_collision_events(id));
                }
                evs
            },
        }
    }

    /// Every catalog prop expires after the same fixed lifetime.
    pub fn get_timer(&self) -> (t: Option<Timer>)
        ensures
            t == Some(Timer { elapsed: 0, limit: PROP_LIFETIME as usize }),
    {
        Some(Timer::new(PROP_LIFETIME))
    }

    /// The catalog index of the kind, used as the id in a prop's tag.
    pub open spec fn spec_id(self) -> ID {
        match self {
            PropKind::GrowFood => 0,
            PropKind::BadFood => 1,
        }
    }

    pub fn id(&self) -> (r: ID)
        ensures
            r == self.spec_id(),
    {
        match self {
            PropKind::GrowFood => 0,
            PropKind::BadFood => 1,
        }
    }
}

/// The occupant of one grid cell.  Each entity is owned by exactly one cell.
#[derive(Debug, Clone, Copy, PartialEq, Eq, Structural)]
pub enum Entity {
    Prop(PropID, PropKind),
    SnakeBody(SnakeID),
    SnakeHead(SnakeID),
    /// A head inside its spawn-invulnerability window; it cannot die.
    ImmortalSnakeHead(SnakeID),
}

impl Entity {
    pub open spec fn spec_is_prop(self) -> bool {
        self is Prop
    }

    pub open spec fn spec_is_snake_head(self) -> bool {
        self is SnakeHead
    }

    /// The snake id of a mortal head; meaningless for other variants.
    pub open spec fn spec_head_id(self) -> SnakeID
        recommends
            self.spec_is_snake_head(),
    {
        match self {
            Entity::SnakeHead(id) => id,
            _ => arbitrary(),
        }
    }

    pub fn is_prop(&self) -> (r: bool)
        ensures
            r == self.spec_is_prop(),
    {
        match self {
            Entity::Prop(_, _) => true,
            _ => false,
        }
    }

    pub fn is_snake_head(&self) -> (r: bool)
        ensures
            r == self.spec_is_snake_head(),
    {
        match self {
            Entity::SnakeHead(_) => true,
            _ => false,
        }
    }

    pub open spec fn spec_tag(self) -> Tag {
        match self {
            Entity::Prop(_, p) => Tag { kind: Kind::Prop, id: p.spec_id() },
            Entity::SnakeBody(id) => Tag { kind: Kind::SnakeBody, id },
            Entity::SnakeHead(id) => Tag { kind: Kind::SnakeHead, id },
            Entity::ImmortalSnakeHead(id) => Tag { kind: Kind::SnakeHead, id },
        }
    }

    pub fn tag(&self) -> (t: Tag)
        ensures
            t == self.spec_tag(),
    {
        match self {
            Entity::Prop(_, p) => Tag { kind: Kind::Prop, id: p.id() },
            Entity::SnakeBody(id) => Tag { kind: Kind::SnakeBody, id: *id },
            Entity::SnakeHead(id) => Tag { kind: Kind::SnakeHead, id: *id },
            Entity::ImmortalSnakeHead(id) => Tag { kind: Kind::SnakeHead, id: *id },
        }
    }
}

/// The error a resolver call reports when a cell's occupant list breaks the
/// grid invariant: more than one entity that is not a mortal head.  It marks
/// a bookkeeping bug, never a reachable game state.
#[derive(Debug, Clone, Copy, PartialEq, Eq, Structural)]
pub enum CollisionError {
    MultipleOccupants,
}

pub open spec fn kill_ev(id: SnakeID) -> SnakeEvent {
    SnakeEvent { id, cmd: Cmd::Kill }
}

/// What two entities contending for one cell resolve to, when at least one
/// of them is a mortal snake head: the surviving occupant (or none), the prop
/// bookkeeping events, and the effects on snakes.
pub open spec fn spec_collide(a: Entity, b: Entity) -> (Option<Entity>, Seq<PropEvent>, Seq<
    SnakeEvent,
>)
    recommends
        a.spec_is_snake_head() || b.spec_is_snake_head(),
{
    let (h, o) = if a.spec_is_snake_head() {
        (a, b)
    } else {
        (b, a)
    };
    let id = h.spec_head_id();
    match o {
        Entity::Prop(pid, p) => {
            let evs = p.spec_collision_events(id);
            match p.spec_collision_result() {
                CollisionResult::RemoveSelf => (Some(h), seq![PropEvent::Remove(pid)], evs),
                CollisionResult::RemoveBoth => (None, seq![PropEvent::Remove(pid)], evs),
                CollisionResult::RemoveOther => (Some(o), Seq::empty(), evs),
            }
        },
        Entity::SnakeBody(_) => (Some(o), Seq::empty(), seq![kill_ev(id)]),
        Entity::ImmortalSnakeHead(_) => (Some(o), Seq::empty(), seq![kill_ev(id)]),
        Entity::SnakeHead(id2) => (None, Seq::empty(), seq![kill_ev(id), kill_ev(id2)]),
    }
}

/// The entities of `s` that are mortal snake heads, in order.
pub open spec fn heads_of(s: Seq<Entity>) -> Seq<Entity>
    decreases s.len(),
{
    if s.len() == 0 {
        Seq::empty()
    } else if s.last().spec_is_snake_head() {
        heads_of(s.drop_last()).push(s.last())
    } else {
        heads_of(s.drop_last())
    }
}

/// The entities of `s` that are not mortal snake heads, in order.
pub open spec fn others_of(s: Seq<Entity>) -> Seq<Entity>
    decreases s.len(),
{
    if s.len() == 0 {
        Seq::empty()
    } else if s.last().spec_is_snake_head() {
        others_of(s.drop_last())
    } else {
        others_of(s.drop_last()).push(s.last())
    }
}

/// One `Kill` event for each mortal head of `s`, in order.
pub open spec fn kills_of(s: Seq<Entity>) -> Seq<SnakeEvent>
    decreases s.len(),
{
    if s.len() == 0 {
        Seq::empty()
    } else if s.last().spec_is_snake_head() {
        kills_of(s.drop_last()).push(kill_ev(s.last().spec_head_id()))
    } else {
        kills_of(s.drop_last())
    }
}

/// What any number of entities contending for one cell resolve to:
/// - no entity: the cell stays empty;
/// - one entity: it keeps the cell, nothing happens;
/// - two: the two-entity table, an error if neither is a mortal head;
/// - three or more: every mortal head is killed; a lone non-head survivor
///   keeps the cell (a prop only under its own policy, and its targeted
///   events reach no one); two or more non-heads are an invariant breach.
pub open spec fn spec_collide_many(s: Seq<Entity>) -> Result<
    (Option<Entity>, Seq<PropEvent>, Seq<SnakeEvent>),
    CollisionError,
> {
    if s.len() == 0 {
        Ok((None, Seq::empty(), Seq::empty()))
    } else if s.len() == 1 {
        Ok((Some(s[0]), Seq::empty(), Seq::empty()))
    } else if s.len() == 2 {
        if s[0].spec_is_snake_head() || s[1].spec_is_snake_head() {
            Ok(spec_collide(s[0], s[1]))
        } else {
            Err(CollisionError::MultipleOccupants)
        }
    } else {
        let others = others_of(s);
        let kills = kills_of(s);
        if others.len() == 0 {
            Ok((None, Seq::empty(), kills))
        } else if others.len() == 1 {
            match others[0] {
                Entity::Prop(pid, p) => match p.spec_collision_result() {
                    CollisionResult::RemoveOther => Ok(
                        (Some(others[0]), Seq::empty(), kills),
                    ),
                    _ => Ok((None, seq![PropEvent::Remove(pid)], kills)),
                },
                _ => Ok((Some(others[0]), Seq::empty(), kills)),
            }
        } else {
            Err(CollisionError::MultipleOccupants)
        }
    }
}

impl Entity {
    /// Resolve two entities contending for one cell, per the two-entity
    /// table: prop policy, head against trail or invulnerable head, or two
    /// mortal heads annihilating.
    pub fn collide(a: Entity, b: Entity) -> (r: (Option<Entity>, Vec<PropEvent>, Vec<SnakeEvent>))
        requires
            a.spec_is_snake_head() || b.spec_is_snake_head(),
        ensures
            (r.0, r.1@, r.2@) == spec_collide(a, b),
    {
        let (a, b) = if a.is_snake_head() {
            (a, b)
        } else {
            (b, a)
        };

        let mut prop_evs: Vec<PropEvent> = Vec::new();
        let mut snake_evs: Vec<SnakeEvent> = Vec::new();

        let id = match a {
            Entity::SnakeHead(id) => id,
            _ => unreached(),
        };

        let out: Option<Entity>;
        match b {
            Entity::Prop(pid, p) => {
                let mut evs = p.collision_events(id);
                snake_evs.append(&mut evs);

                match p.collision_result() {
                    CollisionResult::RemoveSelf => {
                        prop_evs.push(PropEvent::Remove(pid));
                        out = Some(a);
                    },
                    CollisionResult::RemoveBoth => {
                        prop_evs.push(PropEvent::Remove(pid));
                        out = None;
                    },
                    CollisionResult::RemoveOther => {
                        out = Some(Entity::Prop(pid, p));
                    },
                }
            },
            Entity::SnakeBody(_) | Entity::ImmortalSnakeHead(_) => {
                snake_evs.push(SnakeEvent { id, cmd: Cmd::Kill });
                out = Some(b);
            },
            Entity::SnakeHead(id2) => {
                snake_evs.push(SnakeEvent { id, cmd: Cmd::Kill });
                snake_evs.push(SnakeEvent { id: id2, cmd: Cmd::Kill });
                out = None;
            },
        }

        proof {
            assert(spec_collide(a, b).1 =~= prop_evs@);
            assert(spec_collide(a, b).2 =~= snake_evs@);
        }
        (out, prop_evs, snake_evs)
    }

    /// One `Kill` event per head, in order; callers hand in heads only.
    pub fn collide_snake_heads(ens: &Vec<Entity>) -> (out: Vec<SnakeEvent>)
        requires
            forall|k: int| 0 <= k < ens@.len() ==> ens@[k].spec_is_snake_head(),
        ensures
            out@ == kills_of(ens@),
    {
        let mut out: Vec<SnakeEvent> = Vec::new();
        let n = ens.len();
        for k in 0..n
            invariant
                n == ens@.len(),
                forall|i: int| 0 <= i < ens@.len() ==> ens@[i].spec_is_snake_head(),
                out@ == kills_of(ens@.subrange(0, k as int)),
        {
            match ens[k] {
                Entity::SnakeHead(id) => {
                    out.push(SnakeEvent { id, cmd: Cmd::Kill });
                },
                _ => {
                    proof {
                        assert(false);
                    }
                },
            }
            proof {
                lemma_partition_push(ens@.subrange(0, k as int), ens@[k as int]);
                assert(ens@.subrange(0, k + 1 as int) =~= ens@.subrange(0, k as int).push(
                    ens@[k as int],
                ));
            }
        }
        proof {
            assert(ens@.subrange(0, n as int) =~= ens@);
        }
        out
    }

    /// Resolve every entity contending for one cell, however many, per the
    /// count-based table described on `spec_collide_many`.
    pub fn collide_many(ens: Vec<Entity>) -> (r: Result<
        (Option<Entity>, Vec<PropEvent>, Vec<SnakeEvent>),
        CollisionError,
    >)
        ensures
            match (r, spec_collide_many(ens@)) {
                (Ok(t), Ok(st)) => (t.0, t.1@, t.2@) == st,
                (Err(e), Err(se)) => e == se,
                _ => false,
            },
    {
        let n = ens.len();

        if n == 0 {
            return Ok((None, Vec::new(), Vec::new()));
        } else if n == 1 {
            return Ok((Some(ens[0]), Vec::new(), Vec::new()));
        } else if n == 2 {
            if ens[0].is_snake_head() || ens[1].is_snake_head() {
                return Ok(Entity::collide(ens[0], ens[1]));
            } else {
                return Err(CollisionError::MultipleOccupants);
            }
        }

        let mut heads: Vec<Entity> = Vec::new();
        let mut others: Vec<Entity> = Vec::new();

        for k in 0..n
            invariant
                n == ens@.len(),
                heads@ == heads_of(ens@.subrange(0, k as int)),
                others@ == others_of(ens@.subrange(0, k as int)),
        {
            let e = ens[k];
            if e.is_snake_head() {
                heads.push(e);
            } else {
                others.push(e);
            }
            proof {
                lemma_partition_push(ens@.subrange(0, k as int), ens@[k as int]);
                assert(ens@.subrange(0, k + 1 as int) =~= ens@.subrange(0, k as int).push(
                    ens@[k as int],
                ));
            }
        }
        proof {
            assert(ens@.subrange(0, n as int) =~= ens@);
            lemma_heads_all_heads(ens@);
        }

        let snake_evs = Entity::collide_snake_heads(&heads);
        proof {
            lemma_kills_from_heads(ens@);
        }

        if others.len() == 0 {
            Ok((None, Vec::new(), snake_evs))
        } else if others.len() == 1 {
            match others[0] {
                Entity::Prop(pid, p) => {
                    match p.collision_result() {
                        CollisionResult::RemoveOther => {
                            Ok((Some(Entity::Prop(pid, p)), Vec::new(), snake_evs))
                        },
                        _ => {
                            let mut prop_evs: Vec<PropEvent> = Vec::new();
                            prop_evs.push(PropEvent::Remove(pid));
                            proof {
                                assert(prop_evs@ =~= seq![PropEvent::Remove(pid)]);
                            }
                            Ok((None, prop_evs, snake_evs))
                        },
                    }
                },
                e => Ok((Some(e), Vec::new(), snake_evs)),
            }
        } else {
            Err(CollisionError::MultipleOccupants)
        }
    }
}

/// Extending the occupant list by one entity extends its partition by that
/// entity alone: heads go to the head part and to the kill list, everything
/// else to the rest.
pub proof fn lemma_partition_push(s: Seq<Entity>, e: Entity)
    ensures
        heads_of(s.push(e)) == if e.spec_is_snake_head() {
            heads_of(s).push(e)
        } else {
            heads_of(s)
        },
        others_of(s.push(e)) == if e.spec_is_snake_head() {
            others_of(s)
        } else {
            others_of(s).push(e)
        },
        kills_of(s.push(e)) == if e.spec_is_snake_head() {
            kills_of(s).push(kill_ev(e.spec_head_id()))
        } else {
            kills_of(s)
        },
{
    assert(s.push(e).drop_last() =~= s);
    assert(s.push(e).last() == e);
}

/// A resolver error needs at least two non-head occupants in the list.
pub proof fn lemma_err_needs_two_others(s: Seq<Entity>)
    ensures
        spec_collide_many(s) is Err ==> others_of(s).len() >= 2,
{
    if s.len() == 2 && !s[0].spec_is_snake_head() && !s[1].spec_is_snake_head() {
        assert(s.drop_last() =~= seq![s[0]]);
        assert(seq![s[0]].drop_last() =~= Seq::<Entity>::empty());
        assert(others_of(Seq::<Entity>::empty()) =~= Seq::<Entity>::empty());
        assert(others_of(seq![s[0]]) =~= seq![s[0]]);
        assert(others_of(s) =~= seq![s[0], s[1]]);
    }
}

/// The kill list carries one kill for every mortal head of the occupant
/// list.
pub proof fn lemma_kills_contains(s: Seq<Entity>)
    ensures
        forall|k: int|
            0 <= k < s.len() && (#[trigger] s[k]).spec_is_snake_head() ==> kills_of(s).contains(
                kill_ev(s[k].spec_head_id()),
            ),
    decreases s.len(),
{
    if s.len() > 0 {
        lemma_kills_contains(s.drop_last());
        assert forall|k: int|
            0 <= k < s.len() && (#[trigger] s[k]).spec_is_snake_head() implies kills_of(
            s,
        ).contains(kill_ev(s[k].spec_head_id())) by {
            if k == s.len() - 1 {
                assert(kills_of(s)[kills_of(s).len() - 1] == kill_ev(s[k].spec_head_id()));
            } else {
                assert(s.drop_last()[k] == s[k]);
                assert(kills_of(s.drop_last()).contains(kill_ev(s[k].spec_head_id())));
                let t = choose|t: int|
                    0 <= t < kills_of(s.drop_last()).len() && kills_of(s.drop_last())[t] == kill_ev(
                        s[k].spec_head_id(),
                    );
                assert(kills_of(s)[t] == kill_ev(s[k].spec_head_id()));
            }
        }
    }
}

/// Every event in a kill list is a kill.
pub proof fn lemma_kills_all_kill(s: Seq<Entity>)
    ensures
        forall|t: int| 0 <= t < kills_of(s).len() ==> (#[trigger] kills_of(s)[t]).cmd == Cmd::Kill,
    decreases s.len(),
{
    if s.len() > 0 {
        lemma_kills_all_kill(s.drop_last());
        assert forall|t: int| 0 <= t < kills_of(s).len() implies (#[trigger] kills_of(s)[t]).cmd
            == Cmd::Kill by {
            if s.last().spec_is_snake_head() && t == kills_of(s).len() - 1 {
                assert(kills_of(s)[t] == kill_ev(s.last().spec_head_id()));
            } else {
                assert(kills_of(s)[t] == kills_of(s.drop_last())[t]);
            }
        }
    }
}

/// The resolver's events have a fixed shape: every event is either a
/// `Kill`, or one of the grow-prop pair — one growth unit and one point —
/// aimed at the head listed first (the head that entered the cell).
pub proof fn lemma_collide_events_shape(s: Seq<Entity>)
    requires
        s.len() == 0 || s[0].spec_is_snake_head(),
    ensures
        match spec_collide_many(s) {
            Ok(r) => forall|t: int|
                0 <= t < r.2.len() ==> ((#[trigger] r.2[t]).cmd == Cmd::Kill || ((r.2[t].cmd
                    == Cmd::Grow(1) || r.2[t].cmd == Cmd::GiveScore(1)) && r.2[t].id
                    == s[0].spec_head_id())),
            Err(_) => true,
        },
{
    if s.len() >= 3 {
        lemma_kills_all_kill(s);
    }
}

/// When two mortal heads stand in one cell's occupant list (with at most
/// one resting occupant beside them), the resolver succeeds and kills them
/// both.
pub proof fn lemma_two_heads_killed(s: Seq<Entity>, i: int, j: int)
    requires
        others_of(s).len() <= 1,
        0 <= i < s.len(),
        0 <= j < s.len(),
        i != j,
        s[i].spec_is_snake_head(),
        s[j].spec_is_snake_head(),
    ensures
        match spec_collide_many(s) {
            Ok(r) => r.2.contains(kill_ev(s[i].spec_head_id())) && r.2.contains(
                kill_ev(s[j].spec_head_id()),
            ),
            Err(_) => false,
        },
{
    lemma_err_needs_two_others(s);
    if s.len() == 2 {
        let r = spec_collide(s[0], s[1]);
        assert(r.2 == seq![kill_ev(s[0].spec_head_id()), kill_ev(s[1].spec_head_id())]);
        assert(r.2[0] == kill_ev(s[0].spec_head_id()));
        assert(r.2[1] == kill_ev(s[1].spec_head_id()));
    } else {
        lemma_kills_contains(s);
    }
}

/// Every entity in the head part is a mortal head, and the kill list of a
/// pure head sequence is its own kill list.
proof fn lemma_heads_all_heads(s: Seq<Entity>)
    ensures
        forall|k: int| 0 <= k < heads_of(s).len() ==> heads_of(s)[k].spec_is_snake_head(),
        forall|k: int| 0 <= k < others_of(s).len() ==> !others_of(s)[k].spec_is_snake_head(),
    decreases s.len(),
{
    if s.len() > 0 {
        lemma_heads_all_heads(s.drop_last());
        assert forall|k: int| 0 <= k < heads_of(s).len() implies heads_of(
            s,
        )[k].spec_is_snake_head() by {
            if s.last().spec_is_snake_head() && k == heads_of(s).len() - 1 {
                assert(heads_of(s)[k] == s.last());
            } else {
                assert(heads_of(s)[k] == heads_of(s.drop_last())[k]);
            }
        }
        assert forall|k: int| 0 <= k < others_of(s).len() implies !others_of(
            s,
        )[k].spec_is_snake_head() by {
            if !s.last().spec_is_snake_head() && k == others_of(s).len() - 1 {
                assert(others_of(s)[k] == s.last());
            } else {
                assert(others_of(s)[k] == others_of(s.drop_last())[k]);
            }
        }
    }
}

/// The kill list of the whole occupant list is the kill list of its head
/// part: non-heads contribute nothing.
proof fn lemma_kills_from_heads(s: Seq<Entity>)
    ensures
        kills_of(heads_of(s)) == kills_of(s),
    decreases s.len(),
{
    if s.len() > 0 {
        lemma_kills_from_heads(s.drop_last());
        if s.last().spec_is_snake_head() {
            assert(heads_of(s) == heads_of(s.drop_last()).push(s.last()));
            assert(heads_of(s).drop_last() =~= heads_of(s.drop_last()));
        }
    }
}

} // verus!
