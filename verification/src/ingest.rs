//! The ingestion pass: one walk over the lines of a log, in order, that fills the
//! aggregation table.

use crate::kind::OperationKind;
use crate::record::{line_record, read_record, LogRecord, RecordError};
use crate::spread::{effective_day, spread_day, spread_offset, SpreadCounter};
use crate::table::AggregationTable;
use vstd::prelude::*;

verus! {

/// A line that stopped the pass.
#[derive(Clone, Copy, Debug, PartialEq, Eq, Structural)]
pub struct IngestError {
    /// The position of the line in the input, from 0.
    pub line: usize,
    /// What is wrong with the line.
    pub cause: RecordError,
}

/// Whether `record`, moved by `offset` days, counts for `kind` on `day`.
pub open spec fn counts_for(record: LogRecord, offset: int, kind: OperationKind, day: int) -> bool {
    record.kind == Some(kind) && spread_day(record.day as int, offset) == day
}

/// The number of records that count for `kind` on `day` in a pass over `records`,
/// where the record at position `i` is moved by `spread_offset(i)` days.
pub open spec fn expected_tally(records: Seq<LogRecord>, kind: OperationKind, day: int) -> nat
    decreases records.len(),
{
    if records.len() == 0 {
        0
    } else {
        let rest = expected_tally(records.drop_last(), kind, day);
        if counts_for(records.last(), spread_offset(records.len() - 1), kind, day) {
            rest + 1
        } else {
            rest
        }
    }
}

/// Every line is a log record.
pub open spec fn all_records(lines: Seq<String>) -> bool {
    forall|i: int| 0 <= i < lines.len() ==> line_record((#[trigger] lines[i])@) is Ok
}

/// The records of the lines, in line order.
pub open spec fn records_of(lines: Seq<String>) -> Seq<LogRecord> {
    Seq::new(
        lines.len(),
        |i: int|
            match line_record(lines[i]@) {
                Ok(record) => record,
                Err(_) => LogRecord { day: 0, kind: None },
            },
    )
}

/// The positions of the records that count for `kind` on `day`.
pub open spec fn counted_positions(records: Seq<LogRecord>, kind: OperationKind, day: int) -> Set<
    int,
> {
    Set::new(
        |i: int|
            0 <= i < records.len() && counts_for(records[i], spread_offset(i), kind, day),
    )
}

/// The tally of a pair is the number of records that count for it.
pub proof fn lemma_tally_counts_positions(records: Seq<LogRecord>, kind: OperationKind, day: int)
    ensures
        counted_positions(records, kind, day).finite(),
        expected_tally(records, kind, day) == counted_positions(records, kind, day).len(),
    decreases records.len(),
{
    let counted = counted_positions(records, kind, day);
    if records.len() == 0 {
        assert(counted =~= Set::<int>::empty());
    } else {
        let rest = records.drop_last();
        let last = records.len() - 1;
        lemma_tally_counts_positions(rest, kind, day);
        let before = counted_positions(rest, kind, day);
        assert(!before.contains(last));
        if counts_for(records.last(), spread_offset(last), kind, day) {
            assert(counted =~= before.insert(last));
        } else {
            assert(counted =~= before);
        }
    }
}

/// No pair is counted more often than there are records.
pub proof fn lemma_tally_bounded(records: Seq<LogRecord>, kind: OperationKind, day: int)
    ensures
        expected_tally(records, kind, day) <= records.len(),
    decreases records.len(),
{
    if records.len() > 0 {
        lemma_tally_bounded(records.drop_last(), kind, day);
    }
}

/// Counts never go down: a pass over more records counts every pair at least as often
/// as the pass over the first `n` of them.
pub proof fn lemma_tally_monotonic(records: Seq<LogRecord>, n: int, kind: OperationKind, day: int)
    requires
        0 <= n <= records.len(),
    ensures
        expected_tally(records.take(n), kind, day) <= expected_tally(records, kind, day),
    decreases records.len(),
{
    if n == records.len() {
        assert(records.take(n) =~= records);
    } else {
        assert(records.drop_last().take(n) =~= records.take(n));
        lemma_tally_monotonic(records.drop_last(), n, kind, day);
    }
}

/// One step of the pass: moves the record's day by the counter's offset, advances the
/// counter, and counts the record if it is classified. The counter advances for every
/// record, classified or not.
pub fn accumulate(table: &mut AggregationTable, counter: &mut SpreadCounter, record: &LogRecord)
    requires
        old(table).wf(),
        old(counter).wf(),
        record.kind matches Some(kind) ==> old(table).tally(
            kind,
            spread_day(record.day as int, old(counter).position()),
        ) < u64::MAX,
    ensures
        final(table).wf(),
        final(counter).wf(),
        *final(counter) == old(counter).step(),
        final(counter).position() == spread_offset(old(counter).position() + 1),
        forall|kind: OperationKind, day: int|
            final(table).tally(kind, day) == if counts_for(
                *record,
                old(counter).position(),
                kind,
                day,
            ) {
                old(table).tally(kind, day) + 1
            } else {
                old(table).tally(kind, day)
            },
        forall|kind: OperationKind, day: int|
            final(table).tally(kind, day) >= old(table).tally(kind, day),
        match record.kind {
            Some(kind) => final(table)@ == old(table)@.insert(
                (kind, spread_day(record.day as int, old(counter).position())),
                old(table).tally(kind, spread_day(record.day as int, old(counter).position())) + 1,
            ),
            None => final(table)@ == old(table)@,
        },
{
    let day = effective_day(record.day, counter.offset());
    counter.advance();
    if let Some(kind) = record.kind {
        table.record(kind, day);
    }
}

/// Tallies a log given as its records: the record at position `i` is moved by
/// `i % 10` days and, if it is classified, counted for its kind on the day it lands
/// on.
pub fn ingest_records(records: &Vec<LogRecord>) -> (table: AggregationTable)
    ensures
        table.wf(),
        forall|kind: OperationKind, day: int|
            table.tally(kind, day) == expected_tally(records@, kind, day),
{
    let mut table = AggregationTable::new();
    let mut counter = SpreadCounter::new();
    let mut at: usize = 0;
    while at < records.len()
        invariant
            at <= records.len(),
            table.wf(),
            counter.wf(),
            counter.position() == spread_offset(at as int),
            forall|kind: OperationKind, day: int|
                table.tally(kind, day) == expected_tally(records@.take(at as int), kind, day),
        decreases records.len() - at,
    {
        let record = &records[at];
        proof {
            assert(records@.take(at + 1).drop_last() =~= records@.take(at as int));
            if let Some(kind) = record.kind {
                lemma_tally_bounded(
                    records@.take(at as int),
                    kind,
                    spread_day(record.day as int, counter.position()),
                );
            }
        }
        accumulate(&mut table, &mut counter, record);
        at += 1;
    }
    proof {
        assert(records@.take(at as int) =~= records@);
    }
    table
}

/// Tallies a log given as its lines of text. The pass stops at the first line that is
/// no log record and reports it; nothing is tallied then. Where every line is a
/// record, the table is that of the records in line order.
pub fn ingest(lines: &Vec<String>) -> (outcome: Result<AggregationTable, IngestError>)
    ensures
        match outcome {
            Ok(table) => {
                &&& all_records(lines@)
                &&& table.wf()
                &&& forall|kind: OperationKind, day: int|
                    table.tally(kind, day) == expected_tally(records_of(lines@), kind, day)
            },
            Err(error) => {
                &&& error.line < lines.len()
                &&& line_record(lines[error.line as int]@) == Err::<LogRecord, RecordError>(
                    error.cause,
                )
                &&& forall|i: int| 0 <= i < error.line ==> line_record((#[trigger] lines[i])@) is Ok
            },
        },
{
    let mut table = AggregationTable::new();
    let mut counter = SpreadCounter::new();
    let mut at: usize = 0;
    while at < lines.len()
        invariant
            at <= lines.len(),
            table.wf(),
            counter.wf(),
            counter.position() == spread_offset(at as int),
            forall|i: int| 0 <= i < at ==> line_record((#[trigger] lines[i])@) is Ok,
            forall|kind: OperationKind, day: int|
                table.tally(kind, day) == expected_tally(
                    records_of(lines@).take(at as int),
                    kind,
                    day,
                ),
        decreases lines.len() - at,
    {
        let record = match read_record(lines[at].as_str()) {
            Ok(record) => record,
            Err(cause) => {
                return Err(IngestError { line: at, cause });
            },
        };
        proof {
            let records = records_of(lines@);
            assert(records[at as int] == record);
            assert(records.take(at + 1).drop_last() =~= records.take(at as int));
            if let Some(kind) = record.kind {
                lemma_tally_bounded(
                    records.take(at as int),
                    kind,
                    spread_day(record.day as int, counter.position()),
                );
            }
        }
        accumulate(&mut table, &mut counter, &record);
        at += 1;
    }
    proof {
        assert(records_of(lines@).take(at as int) =~= records_of(lines@));
    }
    Ok(table)
}

} // verus!
