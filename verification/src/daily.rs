//! The counts of one operation kind, per calendar day.

use vstd::prelude::*;

verus! {

/// How often an operation was seen on one day.
#[derive(Clone, Copy, Debug, PartialEq, Eq, Structural)]
pub struct DayCount {
    /// The day number of the calendar day.
    pub day: i64,
    /// The number of occurrences on that day.
    pub count: u64,
}

/// Days grow strictly along the sequence, so no day occurs twice.
pub open spec fn ascending(points: Seq<DayCount>) -> bool {
    forall|i: int, j: int| 0 <= i < j < points.len() ==> points[i].day < points[j].day
}

/// Every listed day has been seen at least once.
pub open spec fn positive(points: Seq<DayCount>) -> bool {
    forall|i: int| 0 <= i < points.len() ==> points[i].count >= 1
}

/// Whether `day` is listed in `points`.
pub open spec fn has_day(points: Seq<DayCount>, day: int) -> bool {
    exists|i: int| 0 <= i < points.len() && (#[trigger] points[i]).day == day
}

/// The count listed for `day` in `points`, 0 where the day is not listed.
pub open spec fn tally_in(points: Seq<DayCount>, day: int) -> nat {
    if has_day(points, day) {
        let i = choose|i: int| 0 <= i < points.len() && (#[trigger] points[i]).day == day;
        points[i].count as nat
    } else {
        0
    }
}

/// In an ascending sequence the count listed for the day of an entry is that entry's.
pub proof fn lemma_tally_at(points: Seq<DayCount>, i: int)
    requires
        ascending(points),
        0 <= i < points.len(),
    ensures
        has_day(points, points[i].day as int),
        tally_in(points, points[i].day as int) == points[i].count,
{
    let day = points[i].day as int;
    assert(points[i].day == day);
    let k = choose|k: int| 0 <= k < points.len() && (#[trigger] points[k]).day == day;
    if k < i {
        assert(points[k].day < points[i].day);
    } else if i < k {
        assert(points[i].day < points[k].day);
    }
}

/// The per-day counts of one operation kind: a map from day number to a count of at
/// least 1, kept as the list of its entries in ascending order of day.
pub struct DailyCounts {
    entries: Vec<DayCount>,
}

impl DailyCounts {
    /// The entries in ascending order of day.
    pub closed spec fn points(&self) -> Seq<DayCount> {
        self.entries@
    }

    /// The entries are in strictly ascending order of day and none has count 0.
    pub open spec fn wf(&self) -> bool {
        ascending(self.points()) && positive(self.points())
    }

    /// The count of `day`: 0 where the day was never seen.
    pub open spec fn tally(&self, day: int) -> nat {
        tally_in(self.points(), day)
    }

    /// The counts as a map from the days seen to their counts.
    pub open spec fn view(&self) -> Map<int, nat> {
        Map::new(|day: int| has_day(self.points(), day), |day: int| self.tally(day))
    }

    /// No day has been seen.
    pub fn new() -> (counts: DailyCounts)
        ensures
            counts.wf(),
            counts.points() == Seq::<DayCount>::empty(),
            counts@ == Map::<int, nat>::empty(),
    {
        let counts = DailyCounts { entries: Vec::new() };
        assert(counts@ =~= Map::<int, nat>::empty());
        counts
    }

    /// The number of distinct days seen.
    pub fn len(&self) -> (n: usize)
        ensures
            n == self.points().len(),
    {
        self.entries.len()
    }

    /// Whether no day has been seen.
    pub fn is_empty(&self) -> (empty: bool)
        ensures
            empty == (self.points().len() == 0),
    {
        self.entries.len() == 0
    }

    /// The position of the first entry whose day is not before `day`.
    fn lower_bound(&self, day: i64) -> (at: usize)
        requires
            self.wf(),
        ensures
            at <= self.points().len(),
            forall|i: int| 0 <= i < at ==> self.points()[i].day < day,
            forall|i: int| at <= i < self.points().len() ==> self.points()[i].day >= day,
    {
        let mut at: usize = 0;
        while at < self.entries.len() && self.entries[at].day < day
            invariant
                self.wf(),
                at <= self.entries.len(),
                forall|i: int| 0 <= i < at ==> self.points()[i].day < day,
            decreases self.entries.len() - at,
        {
            at += 1;
        }
        at
    }

    /// The count of `day`.
    pub fn count(&self, day: i64) -> (n: u64)
        requires
            self.wf(),
        ensures
            n == self.tally(day as int),
    {
        let at = self.lower_bound(day);
        if at < self.entries.len() && self.entries[at].day == day {
            proof {
                lemma_tally_at(self.points(), at as int);
            }
            self.entries[at].count
        } else {
            assert(!has_day(self.points(), day as int));
            0
        }
    }

    /// Counts one more occurrence on `day`, listing the day if it was not yet seen.
    pub fn increment(&mut self, day: i64)
        requires
            old(self).wf(),
            old(self).tally(day as int) < u64::MAX,
        ensures
            final(self).wf(),
            final(self)@ == old(self)@.insert(day as int, old(self).tally(day as int) + 1),
            forall|other: int|
                final(self).tally(other) == if other == day {
                    old(self).tally(other) + 1
                } else {
                    old(self).tally(other)
                },
            forall|other: int|
                has_day(final(self).points(), other) == (other == day || has_day(
                    old(self).points(),
                    other,
                )),
            final(self).points().len() > 0,
    {
        let at = self.lower_bound(day);
        let ghost before = self.entries@;
        if at < self.entries.len() && self.entries[at].day == day {
            proof {
                lemma_tally_at(before, at as int);
            }
            let seen = self.entries[at].count;
            self.entries.set(at, DayCount { day, count: seen + 1 });
        } else {
            assert(!has_day(before, day as int));
            self.entries.insert(at, DayCount { day, count: 1 });
        }
        proof {
            let after = self.entries@;
            assert(ascending(after));
            assert(positive(after));
            lemma_tally_at(after, at as int);
            assert forall|other: int| other != day implies tally_in(after, other) == tally_in(
                before,
                other,
            ) && has_day(after, other) == has_day(before, other) by {
                lemma_same_elsewhere(before, after, at as int, day as int, other);
            }
            assert(self@ =~= old(self)@.insert(day as int, old(self).tally(day as int) + 1));
        }
    }

    /// The entries, in ascending order of day.
    pub fn to_points(&self) -> (points: Vec<DayCount>)
        ensures
            points@ == self.points(),
    {
        self.entries.clone()
    }
}

/// Changing or inserting the entry of `day` at position `at` leaves the count of
/// every other day as it was.
proof fn lemma_same_elsewhere(
    before: Seq<DayCount>,
    after: Seq<DayCount>,
    at: int,
    day: int,
    other: int,
)
    requires
        ascending(before),
        ascending(after),
        0 <= at < after.len(),
        after[at].day == day,
        other != day,
        (at < before.len() && after == before.update(at, after[at]) && before[at].day == day) || (
        at <= before.len() && after == before.insert(at, after[at])),
    ensures
        has_day(after, other) == has_day(before, other),
        tally_in(after, other) == tally_in(before, other),
{
    let updated = at < before.len() && after == before.update(at, after[at]) && before[at].day
        == day;
    if has_day(before, other) {
        let i = choose|i: int| 0 <= i < before.len() && (#[trigger] before[i]).day == other;
        lemma_tally_at(before, i);
        let j = if updated || i < at {
            i
        } else {
            i + 1
        };
        assert(after[j] == before[i]);
        lemma_tally_at(after, j);
    }
    if has_day(after, other) {
        let j = choose|j: int| 0 <= j < after.len() && (#[trigger] after[j]).day == other;
        lemma_tally_at(after, j);
        let i = if updated || j < at {
            j
        } else {
            j - 1
        };
        assert(before[i] == after[j]);
        lemma_tally_at(before, i);
    }
}

} // verus!
