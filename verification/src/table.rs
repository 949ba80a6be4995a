//! The aggregation table: for every operation kind, its counts per calendar day.

use crate::daily::{ascending, has_day, positive, tally_in, DailyCounts, DayCount};
use crate::kind::{lemma_rank_round_trip, OperationKind, KIND_COUNT};
use vstd::prelude::*;

verus! {

/// Counts of classified records, per operation kind and calendar day. A pair of kind
/// and day is in the table once at most; its count is at least 1 and only grows.
pub struct AggregationTable {
    rows: Vec<DailyCounts>,
}

impl AggregationTable {
    /// The (day, count) entries of `kind`, in ascending order of day.
    pub closed spec fn points(&self, kind: OperationKind) -> Seq<DayCount> {
        self.rows[kind.rank()].points()
    }

    /// The table holds one well-formed set of daily counts per kind.
    pub closed spec fn wf(&self) -> bool {
        &&& self.rows.len() == KIND_COUNT
        &&& forall|rank: int| 0 <= rank < KIND_COUNT ==> (#[trigger] self.rows[rank]).wf()
    }

    /// The count of `kind` on `day`: 0 where no such record was counted.
    pub open spec fn tally(&self, kind: OperationKind, day: int) -> nat {
        tally_in(self.points(kind), day)
    }

    /// Whether any record of `kind` was counted.
    pub open spec fn observed(&self, kind: OperationKind) -> bool {
        self.points(kind).len() > 0
    }

    /// The table as a map from the pairs of kind and day that were counted to their
    /// counts.
    pub open spec fn view(&self) -> Map<(OperationKind, int), nat> {
        Map::new(
            |key: (OperationKind, int)| has_day(self.points(key.0), key.1),
            |key: (OperationKind, int)| self.tally(key.0, key.1),
        )
    }

    /// The empty table.
    pub fn new() -> (table: AggregationTable)
        ensures
            table.wf(),
            table@ == Map::<(OperationKind, int), nat>::empty(),
            forall|kind: OperationKind, day: int| table.tally(kind, day) == 0,
            forall|kind: OperationKind| !table.observed(kind),
    {
        let mut rows: Vec<DailyCounts> = Vec::new();
        let mut rank: usize = 0;
        while rank < KIND_COUNT
            invariant
                rank <= KIND_COUNT,
                rows.len() == rank,
                forall|r: int|
                    0 <= r < rank ==> (#[trigger] rows[r]).wf() && rows[r].points()
                        == Seq::<DayCount>::empty(),
            decreases KIND_COUNT - rank,
        {
            rows.push(DailyCounts::new());
            rank += 1;
        }
        let table = AggregationTable { rows };
        proof {
            assert forall|kind: OperationKind| !table.observed(kind) by {
                lemma_rank_round_trip(kind);
            }
            assert forall|kind: OperationKind, day: int| table.tally(kind, day) == 0 by {
                lemma_rank_round_trip(kind);
            }
            assert(table@ =~= Map::<(OperationKind, int), nat>::empty()) by {
                assert forall|key: (OperationKind, int)| !has_day(table.points(key.0), key.1) by {
                    lemma_rank_round_trip(key.0);
                }
            }
        }
        table
    }

    /// The count of `kind` on `day`.
    pub fn count(&self, kind: OperationKind, day: i64) -> (n: u64)
        requires
            self.wf(),
        ensures
            n == self.tally(kind, day as int),
    {
        proof {
            lemma_rank_round_trip(kind);
        }
        self.rows[kind.index()].count(day)
    }

    /// Whether any record of `kind` was counted.
    pub fn is_observed(&self, kind: OperationKind) -> (seen: bool)
        requires
            self.wf(),
        ensures
            seen == self.observed(kind),
    {
        proof {
            lemma_rank_round_trip(kind);
        }
        !self.rows[kind.index()].is_empty()
    }

    /// The (day, count) entries of `kind`, in ascending order of day.
    pub fn points_of(&self, kind: OperationKind) -> (points: Vec<DayCount>)
        requires
            self.wf(),
        ensures
            points@ == self.points(kind),
            ascending(points@),
            positive(points@),
    {
        proof {
            lemma_rank_round_trip(kind);
        }
        self.rows[kind.index()].to_points()
    }

    /// Counts one more record of `kind` on `day`, entering the pair with count 1 if it
    /// was not in the table.
    pub fn record(&mut self, kind: OperationKind, day: i64)
        requires
            old(self).wf(),
            old(self).tally(kind, day as int) < u64::MAX,
        ensures
            final(self).wf(),
            final(self)@ == old(self)@.insert(
                (kind, day as int),
                old(self).tally(kind, day as int) + 1,
            ),
            forall|k: OperationKind, d: int|
                final(self).tally(k, d) == if k == kind && d == day {
                    old(self).tally(k, d) + 1
                } else {
                    old(self).tally(k, d)
                },
            forall|k: OperationKind| k != kind ==> final(self).points(k) == old(self).points(k),
            final(self).observed(kind),
    {
        proof {
            lemma_rank_round_trip(kind);
        }
        let at = kind.index();
        self.rows[at].increment(day);
        proof {
            assert forall|k: OperationKind| k != kind implies self.points(k) == old(self).points(
                k,
            ) by {
                lemma_rank_round_trip(k);
            }
            assert forall|k: OperationKind, d: int|
                self.tally(k, d) == if k == kind && d == day {
                    old(self).tally(k, d) + 1
                } else {
                    old(self).tally(k, d)
                } by {
                lemma_rank_round_trip(k);
                if k == kind {
                    assert(self.rows[at as int].tally(d) == self.tally(k, d));
                    assert(old(self).rows[at as int].tally(d) == old(self).tally(k, d));
                }
            }
            assert(self@ =~= old(self)@.insert(
                (kind, day as int),
                old(self).tally(kind, day as int) + 1,
            ));
        }
    }
}

/// The entries of every kind stand in strictly ascending order of day, each with a
/// count of at least 1.
pub proof fn lemma_points_ordered(table: AggregationTable, kind: OperationKind)
    requires
        table.wf(),
    ensures
        ascending(table.points(kind)),
        positive(table.points(kind)),
{
    lemma_rank_round_trip(kind);
}

} // verus!
