//! Series: the counts of one operation kind over time, ready for charting.

use crate::daily::{ascending, positive, DayCount};
use crate::kind::{lemma_rank_round_trip, OperationKind, KIND_COUNT};
use crate::palette::{category10, palette_color, Rgb};
use crate::table::AggregationTable;
use vstd::prelude::*;

verus! {

/// One line of the chart: an operation kind, the color it is drawn in, and its counts
/// in chronological order.
#[derive(Clone, Debug)]
pub struct Series {
    /// The operation kind that the series counts.
    pub kind: OperationKind,
    /// The color of the line and of its legend entry.
    pub color: Rgb,
    /// The (day, count) pairs, in ascending order of day.
    pub points: Vec<DayCount>,
}

impl Series {
    /// The legend label: the command name of the kind.
    pub fn label(&self) -> (label: String)
        ensures
            label@ == self.kind.label(),
    {
        self.kind.name().to_owned()
    }
}

/// No day occurs at two positions.
pub open spec fn distinct_days(points: Seq<DayCount>) -> bool {
    forall|i: int, j: int|
        0 <= i < points.len() && 0 <= j < points.len() && i != j ==> points[i].day
            != points[j].day
}

/// `series` is the projection of `table`: one series for each kind that was counted,
/// in the precedence order of the kinds, holding the entries of that kind, and colored
/// by its position among the series.
pub open spec fn is_projection(table: AggregationTable, series: Seq<Series>) -> bool {
    &&& forall|i: int, j: int|
        0 <= i < j < series.len() ==> series[i].kind.rank() < series[j].kind.rank()
    &&& forall|i: int|
        0 <= i < series.len() ==> {
            &&& table.observed((#[trigger] series[i]).kind)
            &&& series[i].points@ == table.points(series[i].kind)
            &&& series[i].color == category10(i)
        }
    &&& forall|kind: OperationKind|
        table.observed(kind) ==> exists|i: int|
            0 <= i < series.len() && (#[trigger] series[i]).kind == kind
}

/// Lays the table out as series for charting.
pub fn project(table: &AggregationTable) -> (series: Vec<Series>)
    requires
        table.wf(),
    ensures
        is_projection(*table, series@),
        series.len() <= KIND_COUNT,
        forall|i: int|
            0 <= i < series.len() ==> {
                &&& ascending((#[trigger] series[i]).points@)
                &&& distinct_days(series[i].points@)
                &&& positive(series[i].points@)
            },
{
    let mut series: Vec<Series> = Vec::new();
    let mut rank: usize = 0;
    while rank < KIND_COUNT
        invariant
            table.wf(),
            rank <= KIND_COUNT,
            series.len() <= rank,
            forall|i: int| 0 <= i < series.len() ==> (#[trigger] series[i]).kind.rank() < rank,
            forall|i: int, j: int|
                0 <= i < j < series.len() ==> series[i].kind.rank() < series[j].kind.rank(),
            forall|i: int|
                0 <= i < series.len() ==> {
                    &&& table.observed((#[trigger] series[i]).kind)
                    &&& series[i].points@ == table.points(series[i].kind)
                    &&& series[i].color == category10(i)
                    &&& ascending(series[i].points@)
                    &&& distinct_days(series[i].points@)
                    &&& positive(series[i].points@)
                },
            forall|r: int|
                0 <= r < rank && table.observed(OperationKind::of_rank(r)) ==> exists|i: int|
                    0 <= i < series.len() && (#[trigger] series[i]).kind == OperationKind::of_rank(
                        r,
                    ),
        decreases KIND_COUNT - rank,
    {
        if let Some(kind) = OperationKind::from_index(rank) {
            if table.is_observed(kind) {
                let color = palette_color(series.len());
                let points = table.points_of(kind);
                let ghost before = series@;
                series.push(Series { kind, color, points });
                proof {
                    let last = before.len() as int;
                    assert(series@[last].kind == kind);
                    assert forall|r: int|
                        0 <= r < rank + 1 && table.observed(
                            OperationKind::of_rank(r),
                        ) implies exists|i: int|
                        0 <= i < series.len() && (#[trigger] series[i]).kind
                            == OperationKind::of_rank(r) by {
                        if r < rank {
                            let i = choose|i: int|
                                0 <= i < before.len() && (#[trigger] before[i]).kind
                                    == OperationKind::of_rank(r);
                            assert(series@[i] == before[i]);
                        } else {
                            assert(series@[last].kind == OperationKind::of_rank(r));
                        }
                    }
                }
            }
        }
        rank += 1;
    }
    proof {
        assert forall|kind: OperationKind| table.observed(kind) implies exists|i: int|
            0 <= i < series.len() && (#[trigger] series[i]).kind == kind by {
            lemma_rank_round_trip(kind);
        }
    }
    series
}

} // verus!
