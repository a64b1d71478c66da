//! Countdown timers, directions and toroidal grid indices: the small
//! building blocks that every time- or position-based rule uses.

use vstd::prelude::*;

verus! {

/// A countdown counter: `tick` advances `elapsed` towards `limit`, and the
/// timer is done once `elapsed` has reached `limit`.  Every time-based rule
/// (prop lifetime, spawn invulnerability, death delay) is driven by one.
#[derive(Clone, Copy, Debug, PartialEq, Eq, Structural)]
pub struct Timer {
    pub elapsed: usize,
    pub limit: usize,
}

impl Timer {
    pub open spec fn spec_is_done(self) -> bool {
        self.limit <= self.elapsed
    }

    pub fn new(limit: usize) -> (t: Timer)
        ensures
            t == (Timer { elapsed: 0, limit }),
    {
        Timer { elapsed: 0, limit }
    }

    /// The timer one step later: `elapsed` advances towards `limit` and
    /// stops there.
    pub open spec fn spec_ticked(self) -> Timer {
        Timer {
            elapsed: if self.spec_is_done() {
                self.elapsed
            } else {
                (self.elapsed + 1) as usize
            },
            limit: self.limit,
        }
    }

    /// Advance the timer one step.  Once done it stays done and stops
    /// counting, so ticking cannot overflow however often it is called.
    pub fn tick(&mut self)
        ensures
            *final(self) == old(self).spec_ticked(),
    {
        if self.elapsed < self.limit {
            self.elapsed = self.elapsed + 1;
        }
    }

    pub fn is_done(&self) -> (r: bool)
        ensures
            r == self.spec_is_done(),
    {
        self.limit <= self.elapsed
    }

    pub fn reset(&mut self)
        ensures
            *final(self) == (Timer { elapsed: 0, limit: old(self).limit }),
    {
        self.elapsed = 0;
    }
}

/// One fresh draw from the thread-local generator.  Nothing can be promised
/// of the value; every caller must cope with all of `u32`.
///
/// Relies on `rand::random::<u32>()`, one draw from the thread-local
/// generator; no contract is claimed of it.
#[verifier::external_body]
pub(crate) fn random_u32() -> u32 {
    rand::random::<u32>()
}

/// The four directions a snake head can travel in.
#[derive(Debug, Clone, Copy, PartialEq, Eq, Structural)]
pub enum Direction {
    Up,
    Down,
    Left,
    Right,
}

impl Direction {
    pub open spec fn spec_is_vertical(self) -> bool {
        self == Direction::Up || self == Direction::Down
    }

    /// Two directions are perpendicular when one is vertical and the other
    /// horizontal; only such turns are accepted by a moving snake.
    pub open spec fn spec_perpendicular(self, other: Direction) -> bool {
        self.spec_is_vertical() != other.spec_is_vertical()
    }

    /// The direction a draw `r` selects, one of the four for each residue.
    pub open spec fn spec_of_draw(r: u32) -> Direction {
        if r % 4 == 0 {
            Direction::Up
        } else if r % 4 == 1 {
            Direction::Down
        } else if r % 4 == 2 {
            Direction::Left
        } else {
            Direction::Right
        }
    }

    /// Pick the direction a given draw selects.
    pub fn of_draw(r: u32) -> (d: Direction)
        ensures
            d == Direction::spec_of_draw(r),
    {
        match r % 4 {
            0 => Direction::Up,
            1 => Direction::Down,
            2 => Direction::Left,
            _ => Direction::Right,
        }
    }

    /// A direction chosen at random; any of the four can come back.
    pub fn rand() -> Direction {
        Direction::of_draw(random_u32())
    }
}

/// Wrap `x` into the half-open range `[lo, hi)`: one step below `lo` lands on
/// `hi - 1`, one step past `hi - 1` lands on `lo`, and anything inside the
/// range is left alone.
pub open spec fn spec_wrap(x: int, lo: int, hi: int) -> int {
    if x < lo {
        hi - 1
    } else if hi <= x {
        lo
    } else {
        x
    }
}

pub fn wrap(x: i32, lo: i32, hi: i32) -> (r: i32)
    requires
        lo < hi,
    ensures
        r == spec_wrap(x as int, lo as int, hi as int),
        lo <= r < hi,
{
    if x < lo {
        hi - 1
    } else if hi <= x {
        lo
    } else {
        x
    }
}

/// A position on the grid, held as a (row, column) pair.  The components are
/// signed so that a head can step one cell past an edge before being wrapped
/// back into range.
#[derive(Debug, Clone, Copy, PartialEq, Eq, Structural)]
pub struct Index2D(pub i32, pub i32);

impl Index2D {
    /// True when the index lies inside an `rows` by `cols` grid.
    pub open spec fn spec_in_bounds(self, rows: int, cols: int) -> bool {
        0 <= self.0 < rows && 0 <= self.1 < cols
    }

    pub fn new(i: usize, j: usize) -> (r: Index2D)
        requires
            i <= i32::MAX,
            j <= i32::MAX,
        ensures
            r == (Index2D(i as i32, j as i32)),
    {
        Index2D(i as i32, j as i32)
    }

    /// A random index with first component in `[i_lo, i_lo + i_hi)` and
    /// second in `[j_lo, j_lo + j_hi)`; which one cannot be said.
    pub fn rand_in_range(i_lo_hi: (usize, usize), j_lo_hi: (usize, usize)) -> (r: Index2D)
        requires
            0 < i_lo_hi.1,
            0 < j_lo_hi.1,
            i_lo_hi.0 + i_lo_hi.1 <= i32::MAX,
            j_lo_hi.0 + j_lo_hi.1 <= i32::MAX,
        ensures
            i_lo_hi.0 <= r.0 < i_lo_hi.0 + i_lo_hi.1,
            j_lo_hi.0 <= r.1 < j_lo_hi.0 + j_lo_hi.1,
    {
        let (i_lo, i_hi) = i_lo_hi;
        let (j_lo, j_hi) = j_lo_hi;
        let i: u32 = (random_u32() % (i_hi as u32)) + (i_lo as u32);
        let j: u32 = (random_u32() % (j_hi as u32)) + (j_lo as u32);
        Index2D::new(i as usize, j as usize)
    }

    pub fn get(&self) -> (r: (usize, usize))
        requires
            0 <= self.0,
            0 <= self.1,
        ensures
            r.0 == self.0,
            r.1 == self.1,
    {
        (self.0 as usize, self.1 as usize)
    }

    pub fn get_u32(&self) -> (r: (u32, u32))
        requires
            0 <= self.0,
            0 <= self.1,
        ensures
            r.0 == self.0,
            r.1 == self.1,
    {
        (self.0 as u32, self.1 as u32)
    }

    /// The index one step away in direction `dir`, before any wrapping.
    pub open spec fn spec_neighbor(self, dir: Direction) -> Index2D {
        match dir {
            Direction::Up => Index2D((self.0 - 1) as i32, self.1),
            Direction::Down => Index2D((self.0 + 1) as i32, self.1),
            Direction::Left => Index2D(self.0, (self.1 - 1) as i32),
            Direction::Right => Index2D(self.0, (self.1 + 1) as i32),
        }
    }

    pub fn neighbor(&self, dir: &Direction) -> (r: Index2D)
        requires
            i32::MIN < self.0 < i32::MAX,
            i32::MIN < self.1 < i32::MAX,
        ensures
            r == self.spec_neighbor(*dir),
    {
        let Index2D(i, j) = *self;
        match dir {
            Direction::Up => Index2D(i - 1, j),
            Direction::Down => Index2D(i + 1, j),
            Direction::Left => Index2D(i, j - 1),
            Direction::Right => Index2D(i, j + 1),
        }
    }

    pub fn wrap_fst(self, lo: usize, hi: usize) -> (r: Index2D)
        requires
            lo < hi <= i32::MAX,
        ensures
            r.0 == spec_wrap(self.0 as int, lo as int, hi as int),
            r.1 == self.1,
            lo <= r.0 < hi,
    {
        let Index2D(i, j) = self;
        Index2D(wrap(i, lo as i32, hi as i32), j)
    }

    pub fn wrap_snd(self, lo: usize, hi: usize) -> (r: Index2D)
        requires
            lo < hi <= i32::MAX,
        ensures
            r.0 == self.0,
            r.1 == spec_wrap(self.1 as int, lo as int, hi as int),
            lo <= r.1 < hi,
    {
        let Index2D(i, j) = self;
        Index2D(i, wrap(j, lo as i32, hi as i32))
    }

    /// Both components wrapped into their ranges: the toroidal step used for
    /// every head move.
    pub open spec fn spec_wrapped(self, i_lo: int, i_hi: int, j_lo: int, j_hi: int) -> Index2D {
        Index2D(
            spec_wrap(self.0 as int, i_lo, i_hi) as i32,
            spec_wrap(self.1 as int, j_lo, j_hi) as i32,
        )
    }

    pub fn wrap(self, i_lo_hi: (usize, usize), j_lo_hi: (usize, usize)) -> (r: Index2D)
        requires
            i_lo_hi.0 < i_lo_hi.1 <= i32::MAX,
            j_lo_hi.0 < j_lo_hi.1 <= i32::MAX,
        ensures
            r == self.spec_wrapped(
                i_lo_hi.0 as int,
                i_lo_hi.1 as int,
                j_lo_hi.0 as int,
                j_lo_hi.1 as int,
            ),
            i_lo_hi.0 <= r.0 < i_lo_hi.1,
            j_lo_hi.0 <= r.1 < j_lo_hi.1,
    {
        let (i_lo, i_hi) = i_lo_hi;
        let (j_lo, j_hi) = j_lo_hi;
        self.wrap_fst(i_lo, i_hi).wrap_snd(j_lo, j_hi)
    }
}

} // verus!
