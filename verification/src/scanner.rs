//! Walking a closed range of log positions, one position at a time, from the
//! top down or from the bottom up.

use vstd::prelude::*;

verus! {

/// The order in which a range of positions is walked.
#[derive(Debug, Clone, Copy, PartialEq, Eq, Structural)]
pub enum Direction {
    /// From the highest position down: the most recent blob is met first.
    Descending,
    /// From the lowest position up: the full history in the order in which
    /// it was written.
    Ascending,
}

/// The positions of the closed range `[low, high]`, highest first. Empty
/// where `high < low`.
pub open spec fn positions_down(low: u64, high: u64) -> Seq<u64> {
    if high < low {
        Seq::empty()
    } else {
        Seq::new((high - low + 1) as nat, |i: int| (high - i) as u64)
    }
}

/// The positions of the closed range `[low, high]`, lowest first. Empty
/// where `high < low`.
pub open spec fn positions_up(low: u64, high: u64) -> Seq<u64> {
    if high < low {
        Seq::empty()
    } else {
        Seq::new((high - low + 1) as nat, |i: int| (low + i) as u64)
    }
}

/// A walk over a closed range of positions. It hands out each position once
/// and cannot be rewound: to walk the range again, make a new scanner.
#[derive(Debug, Clone, Copy)]
pub struct RangeScanner {
    low: u64,
    high: u64,
    direction: Direction,
    exhausted: bool,
}

impl View for RangeScanner {
    type V = Seq<u64>;

    /// The positions that the scanner has yet to hand out, next one first.
    closed spec fn view(&self) -> Seq<u64> {
        if self.exhausted {
            Seq::empty()
        } else {
            match self.direction {
                Direction::Descending => positions_down(self.low, self.high),
                Direction::Ascending => positions_up(self.low, self.high),
            }
        }
    }
}

impl RangeScanner {
    /// A walk over `[low, high]` from `high` down to `low`.
    pub fn descending(low: u64, high: u64) -> (scanner: RangeScanner)
        ensures
            scanner@ == positions_down(low, high),
    {
        RangeScanner { low, high, direction: Direction::Descending, exhausted: false }
    }

    /// A walk over `[low, high]` from `low` up to `high`.
    pub fn ascending(low: u64, high: u64) -> (scanner: RangeScanner)
        ensures
            scanner@ == positions_up(low, high),
    {
        RangeScanner { low, high, direction: Direction::Ascending, exhausted: false }
    }

    /// A walk over `[low, high]` in the given direction.
    pub fn new(low: u64, high: u64, direction: Direction) -> (scanner: RangeScanner)
        ensures
            scanner@ == match direction {
                Direction::Descending => positions_down(low, high),
                Direction::Ascending => positions_up(low, high),
            },
    {
        RangeScanner { low, high, direction, exhausted: false }
    }

    /// Hands out the next position of the walk, or `None` once every
    /// position of the range has been handed out.
    pub fn next_position(&mut self) -> (next: Option<u64>)
        ensures
            match next {
                Some(position) => old(self)@.len() > 0 && position == old(self)@[0] && final(self)@
                    == old(self)@.drop_first(),
                None => old(self)@.len() == 0 && final(self)@.len() == 0,
            },
    {
        let ghost before = self@;
        if self.exhausted || self.high < self.low {
            return None;
        }
        let last = self.low == self.high;
        match self.direction {
            Direction::Descending => {
                let position = self.high;
                if last {
                    self.exhausted = true;
                } else {
                    self.high = self.high - 1;
                }
                assert(self@ =~= before.drop_first());
                Some(position)
            },
            Direction::Ascending => {
                let position = self.low;
                if last {
                    self.exhausted = true;
                } else {
                    self.low = self.low + 1;
                }
                assert(self@ =~= before.drop_first());
                Some(position)
            },
        }
    }
}

} // verus!
