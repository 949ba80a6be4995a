//! The date spread: an offset of 0 to 9 days that moves each record's date forward,
//! advancing with every record so that a burst of same-day records is laid out over
//! ten days.

use vstd::prelude::*;

verus! {

/// The number of offsets in the cycle: offsets run from 0 to `SPREAD_WINDOW - 1`.
pub const SPREAD_WINDOW: u8 = 10;

/// The offset that the record at position `index` of a pass is moved by.
pub open spec fn spread_offset(index: int) -> int {
    index % (SPREAD_WINDOW as int)
}

/// The day that a record dated `day` counts for when it is moved by `offset` days.
pub open spec fn spread_day(day: int, offset: int) -> int {
    day + offset
}

/// The counter that hands out the offsets of one pass, one record after the other.
#[derive(Clone, Copy, Debug, PartialEq, Eq, Structural)]
pub struct SpreadCounter {
    position: u8,
}

impl SpreadCounter {
    /// The offset that the next record gets.
    pub closed spec fn position(self) -> int {
        self.position as int
    }

    /// The offset lies in the window.
    pub open spec fn wf(self) -> bool {
        0 <= self.position() < SPREAD_WINDOW
    }

    /// The counter after one more record: the offset grows by one and falls back to 0
    /// after the last offset of the window.
    pub closed spec fn step(self) -> SpreadCounter {
        SpreadCounter {
            position: if self.position + 1 > SPREAD_WINDOW - 1 {
                0
            } else {
                (self.position + 1) as u8
            },
        }
    }

    /// The counter after `records` records of a pass.
    pub open spec fn after(records: nat) -> SpreadCounter
        decreases records,
    {
        if records == 0 {
            SpreadCounter::start()
        } else {
            SpreadCounter::after((records - 1) as nat).step()
        }
    }

    /// The counter at the start of a pass.
    pub closed spec fn start() -> SpreadCounter {
        SpreadCounter { position: 0 }
    }

    /// A counter at the start of a pass: the first record gets offset 0.
    pub fn new() -> (counter: SpreadCounter)
        ensures
            counter == SpreadCounter::start(),
            counter.wf(),
            counter.position() == 0,
    {
        SpreadCounter { position: 0 }
    }

    /// The offset that the next record gets.
    pub fn offset(&self) -> (offset: u8)
        ensures
            offset == self.position(),
    {
        self.position
    }

    /// Moves on to the next record.
    pub fn advance(&mut self)
        requires
            old(self).wf(),
        ensures
            *final(self) == old(self).step(),
            final(self).wf(),
            final(self).position() == spread_offset(old(self).position() + 1),
    {
        self.position += 1;
        if self.position > SPREAD_WINDOW - 1 {
            self.position = 0;
        }
    }
}

/// The day that a record dated `day` counts for under the offset `offset`.
pub fn effective_day(day: i32, offset: u8) -> (moved: i64)
    ensures
        moved == spread_day(day as int, offset as int),
{
    day as i64 + offset as i64
}

/// The offsets of a pass run 0, 1, ..., 9, 0, 1, ... in record order: after any number
/// of records the counter stands at that number modulo the window, whatever the
/// records were.
pub proof fn lemma_counter_cycles(records: nat)
    ensures
        SpreadCounter::after(records).wf(),
        SpreadCounter::after(records).position() == spread_offset(records as int),
    decreases records,
{
    if records > 0 {
        lemma_counter_cycles((records - 1) as nat);
    }
}

/// One step raises the offset by one, and takes it from the last offset of the window
/// back to 0.
pub proof fn lemma_counter_step(counter: SpreadCounter)
    requires
        counter.wf(),
    ensures
        counter.step().wf(),
        counter.step().position() == if counter.position() == SPREAD_WINDOW - 1 {
            0
        } else {
            counter.position() + 1
        },
{
}

} // verus!
