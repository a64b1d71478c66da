//! Bookkeeping for active props: their optional lifetime timers and grid
//! positions, and the random pick from the prop catalog.

use vstd::prelude::*;

use crate::entity::{PropID, PropKind};
use crate::util::{random_u32, Index2D, Timer};

verus! {

/// One active prop: its lifetime timer (if any), its id, and where it sits.
pub type PropRecord = (Option<Timer>, PropID, Index2D);

/// A record whose lifetime has run out; records without a timer never
/// expire by time.
pub open spec fn spec_expired(e: PropRecord) -> bool {
    match e.0 {
        Some(t) => t.spec_is_done(),
        None => false,
    }
}

/// The record with its timer advanced one tick.
pub open spec fn spec_rec_ticked(e: PropRecord) -> PropRecord {
    (
        match e.0 {
            Some(t) => Some(t.spec_ticked()),
            None => None,
        },
        e.1,
        e.2,
    )
}

/// `s` without the records carrying id `pid`, in order.
pub open spec fn spec_without_id(s: Seq<PropRecord>, pid: PropID) -> Seq<PropRecord>
    decreases s.len(),
{
    if s.len() == 0 {
        Seq::empty()
    } else if s.last().1 == pid {
        spec_without_id(s.drop_last(), pid)
    } else {
        spec_without_id(s.drop_last(), pid).push(s.last())
    }
}

/// Every record with its timer advanced one tick.
pub open spec fn spec_ticked_records(s: Seq<PropRecord>) -> Seq<PropRecord> {
    s.map_values(|e: PropRecord| spec_rec_ticked(e))
}

/// The records of `s` that have not expired, in order.
pub open spec fn spec_kept(s: Seq<PropRecord>) -> Seq<PropRecord>
    decreases s.len(),
{
    if s.len() == 0 {
        Seq::empty()
    } else if spec_expired(s.last()) {
        spec_kept(s.drop_last())
    } else {
        spec_kept(s.drop_last()).push(s.last())
    }
}

/// The positions of the expired records of `s`, in order.
pub open spec fn spec_expired_positions(s: Seq<PropRecord>) -> Seq<Index2D>
    decreases s.len(),
{
    if s.len() == 0 {
        Seq::empty()
    } else if spec_expired(s.last()) {
        spec_expired_positions(s.drop_last()).push(s.last().2)
    } else {
        spec_expired_positions(s.drop_last())
    }
}

/// Extending the record list by one record extends each projection by that
/// record alone.
pub proof fn lemma_records_push(s: Seq<PropRecord>, e: PropRecord, pid: PropID)
    ensures
        spec_without_id(s.push(e), pid) == if e.1 == pid {
            spec_without_id(s, pid)
        } else {
            spec_without_id(s, pid).push(e)
        },
        spec_kept(s.push(e)) == if spec_expired(e) {
            spec_kept(s)
        } else {
            spec_kept(s).push(e)
        },
        spec_expired_positions(s.push(e)) == if spec_expired(e) {
            spec_expired_positions(s).push(e.2)
        } else {
            spec_expired_positions(s)
        },
{
    assert(s.push(e).drop_last() =~= s);
    assert(s.push(e).last() == e);
}

/// Removing records by id keeps every remaining position inside the grid.
pub proof fn lemma_without_id_in_bounds(s: Seq<PropRecord>, pid: PropID, rows: int, cols: int)
    requires
        forall|k: int| 0 <= k < s.len() ==> (#[trigger] s[k]).2.spec_in_bounds(rows, cols),
    ensures
        forall|k: int|
            0 <= k < spec_without_id(s, pid).len() ==> (#[trigger] spec_without_id(s, pid)[k]).2.spec_in_bounds(
                rows,
                cols,
            ),
    decreases s.len(),
{
    if s.len() > 0 {
        lemma_without_id_in_bounds(s.drop_last(), pid, rows, cols);
        let r = spec_without_id(s, pid);
        assert forall|k: int| 0 <= k < r.len() implies (#[trigger] r[k]).2.spec_in_bounds(
            rows,
            cols,
        ) by {
            if s.last().1 != pid && k == r.len() - 1 {
                assert(r[k] == s.last());
            } else {
                assert(r[k] == spec_without_id(s.drop_last(), pid)[k]);
            }
        }
    }
}

/// Expiry keeps every kept record and every expired position inside the
/// grid.
pub proof fn lemma_expiry_in_bounds(s: Seq<PropRecord>, rows: int, cols: int)
    requires
        forall|k: int| 0 <= k < s.len() ==> (#[trigger] s[k]).2.spec_in_bounds(rows, cols),
    ensures
        forall|k: int|
            0 <= k < spec_kept(s).len() ==> (#[trigger] spec_kept(s)[k]).2.spec_in_bounds(
                rows,
                cols,
            ),
        forall|k: int|
            0 <= k < spec_expired_positions(s).len() ==> (#[trigger] spec_expired_positions(
                s,
            )[k]).spec_in_bounds(rows, cols),
    decreases s.len(),
{
    if s.len() > 0 {
        lemma_expiry_in_bounds(s.drop_last(), rows, cols);
        let kp = spec_kept(s);
        let ex = spec_expired_positions(s);
        assert forall|k: int| 0 <= k < kp.len() implies (#[trigger] kp[k]).2.spec_in_bounds(
            rows,
            cols,
        ) by {
            if !spec_expired(s.last()) && k == kp.len() - 1 {
                assert(kp[k] == s.last());
            } else {
                assert(kp[k] == spec_kept(s.drop_last())[k]);
            }
        }
        assert forall|k: int| 0 <= k < ex.len() implies (#[trigger] ex[k]).spec_in_bounds(
            rows,
            cols,
        ) by {
            if spec_expired(s.last()) && k == ex.len() - 1 {
                assert(ex[k] == s.last().2);
            } else {
                assert(ex[k] == spec_expired_positions(s.drop_last())[k]);
            }
        }
    }
}

/// The flat collection of active props and their expiry bookkeeping.
pub struct PropManager {
    pub props: Vec<PropRecord>,
}

impl PropManager {
    /// Every recorded position fits the grid.
    pub open spec fn wf(self, rows: int, cols: int) -> bool {
        forall|k: int|
            0 <= k < self.props@.len() ==> (#[trigger] self.props@[k]).2.spec_in_bounds(rows, cols)
    }

    pub fn new() -> (pm: PropManager)
        ensures
            pm.props@ == Seq::<PropRecord>::empty(),
    {
        let props: Vec<PropRecord> = Vec::new();
        proof {
            assert(props@ =~= Seq::<PropRecord>::empty());
        }
        PropManager { props }
    }

    pub fn add(&mut self, opt: Option<Timer>, pid: PropID, idx: Index2D)
        ensures
            final(self).props@ == old(self).props@.push((opt, pid, idx)),
    {
        self.props.push((opt, pid, idx));
    }

    /// Advance every lifetime timer one tick.
    pub fn tick(&mut self)
        ensures
            final(self).props@.len() == old(self).props@.len(),
            forall|k: int|
                0 <= k < old(self).props@.len() ==> final(self).props@[k] == spec_rec_ticked(
                    #[trigger] old(self).props@[k],
                ),
    {
        let n = self.props.len();
        let mut k: usize = 0;
        while k < n
            invariant
                n == self.props@.len(),
                self.props@.len() == old(self).props@.len(),
                k <= n,
                forall|t: int|
                    0 <= t < k ==> self.props@[t] == spec_rec_ticked(#[trigger] old(self).props@[t]),
                forall|t: int| k <= t < n ==> self.props@[t] == old(self).props@[t],
            decreases n - k,
        {
            let (opt, pid, idx) = self.props[k];
            let new_opt = match opt {
                Some(timer) => {
                    let mut ticked = timer;
                    ticked.tick();
                    Some(ticked)
                },
                None => None,
            };
            self.props[k] = (new_opt, pid, idx);
            k = k + 1;
        }
    }

    /// Drop the bookkeeping for every record carrying `pid` (a
    /// collision-triggered removal).
    pub fn remove_by_id(&mut self, pid: PropID)
        ensures
            final(self).props@ == spec_without_id(old(self).props@, pid),
    {
        let n = self.props.len();
        let mut kept: Vec<PropRecord> = Vec::new();
        let mut k: usize = 0;
        while k < n
            invariant
                n == self.props@.len(),
                *self == *old(self),
                k <= n,
                kept@ == spec_without_id(self.props@.subrange(0, k as int), pid),
            decreases n - k,
        {
            let e = self.props[k];
            if e.1 != pid {
                kept.push(e);
            }
            proof {
                lemma_records_push(self.props@.subrange(0, k as int), self.props@[k as int], pid);
                assert(self.props@.subrange(0, k + 1 as int) =~= self.props@.subrange(
                    0,
                    k as int,
                ).push(self.props@[k as int]));
            }
            k = k + 1;
        }
        proof {
            assert(self.props@.subrange(0, n as int) =~= self.props@);
        }
        self.props = kept;
    }

    /// Drain the expired records and hand back their positions so the grid
    /// cells can be vacated.
    pub fn indices_to_remove(&mut self) -> (out: Vec<Index2D>)
        ensures
            final(self).props@ == spec_kept(old(self).props@),
            out@ == spec_expired_positions(old(self).props@),
    {
        let n = self.props.len();
        let mut kept: Vec<PropRecord> = Vec::new();
        let mut out: Vec<Index2D> = Vec::new();
        let mut k: usize = 0;
        while k < n
            invariant
                n == self.props@.len(),
                *self == *old(self),
                k <= n,
                kept@ == spec_kept(self.props@.subrange(0, k as int)),
                out@ == spec_expired_positions(self.props@.subrange(0, k as int)),
            decreases n - k,
        {
            let e = self.props[k];
            let expired = match e.0 {
                Some(timer) => timer.is_done(),
                None => false,
            };
            if expired {
                out.push(e.2);
            } else {
                kept.push(e);
            }
            proof {
                lemma_records_push(self.props@.subrange(0, k as int), self.props@[k as int], 0);
                assert(self.props@.subrange(0, k + 1 as int) =~= self.props@.subrange(
                    0,
                    k as int,
                ).push(self.props@[k as int]));
            }
            k = k + 1;
        }
        proof {
            assert(self.props@.subrange(0, n as int) =~= self.props@);
        }
        self.props = kept;
        out
    }
}

impl PropKind {
    /// The catalog entry a draw selects: even draws pick the grow food, odd
    /// draws the hazard.
    pub open spec fn spec_of_draw(r: u32) -> PropKind {
        if r % 2 == 0 {
            PropKind::GrowFood
        } else {
            PropKind::BadFood
        }
    }

    pub fn of_draw(r: u32) -> (p: PropKind)
        ensures
            p == PropKind::spec_of_draw(r),
    {
        if r % 2 == 0 {
            PropKind::GrowFood
        } else {
            PropKind::BadFood
        }
    }
}

/// A prop kind chosen at random from the catalog; either kind can come
/// back.
pub fn food_spawner() -> PropKind {
    PropKind::of_draw(random_u32())
}

} // verus!
