//! Log records: what one line of the log says, as far as the tallies need it.

use crate::classify::{command_kind, find_command};
use crate::json::{json_document, json_member, json_string, member, parse_document, string_of};
use crate::kind::OperationKind;
use crate::timestamp::{parse_day, rfc3339_day};
use serde_json::Value;
use vstd::prelude::*;

verus! {

/// One parsed log line: the calendar day of its timestamp and, where the line records
/// a recognized command, the kind of that command.
#[derive(Clone, Copy, Debug, PartialEq, Eq, Structural)]
pub struct LogRecord {
    /// The day number of the local date of the timestamp.
    pub day: i32,
    /// The operation kind, `None` for a line that is not counted.
    pub kind: Option<OperationKind>,
}

/// Why a line is no log record.
#[derive(Clone, Copy, Debug, PartialEq, Eq, Structural)]
pub enum RecordError {
    /// The line is not a JSON document.
    MalformedRecord,
    /// The document has no string under `t.$date`, or the string is no RFC 3339
    /// timestamp.
    MissingOrInvalidTimestamp,
}

/// The member under `inner` of the member under `outer` of `document`.
pub open spec fn nested_member(document: Value, outer: Seq<char>, inner: Seq<char>) -> Option<
    Value,
> {
    match json_member(document, outer) {
        Some(middle) => json_member(middle, inner),
        None => None,
    }
}

/// The timestamp text of a document: the string under `t.$date`.
pub open spec fn timestamp_text(document: Value) -> Option<Seq<char>> {
    match nested_member(document, "t"@, "$date"@) {
        Some(date) => json_string(date),
        None => None,
    }
}

/// The calendar day of a document's timestamp.
pub open spec fn document_day(document: Value) -> Option<i32> {
    match timestamp_text(document) {
        Some(text) => rfc3339_day(text),
        None => None,
    }
}

/// The command object of a document: the member under `attr.command`.
pub open spec fn document_command(document: Value) -> Option<Value> {
    nested_member(document, "attr"@, "command"@)
}

/// The operation kind of a document: that of its command object, `None` where it has
/// no command object or the command names no recognized operation.
pub open spec fn document_kind(document: Value) -> Option<OperationKind> {
    match document_command(document) {
        Some(command) => command_kind(command),
        None => None,
    }
}

/// The record of a document. The timestamp is read first: a document without a valid
/// one is an error whether or not it holds a command.
pub open spec fn document_record(document: Value) -> Result<LogRecord, RecordError> {
    match document_day(document) {
        Some(day) => Ok(LogRecord { day, kind: document_kind(document) }),
        None => Err(RecordError::MissingOrInvalidTimestamp),
    }
}

/// The record of a line of text.
pub open spec fn line_record(line: Seq<char>) -> Result<LogRecord, RecordError> {
    match json_document(line) {
        Some(document) => document_record(document),
        None => Err(RecordError::MalformedRecord),
    }
}

/// Looks up the member under `inner` of the member under `outer`.
fn lookup_nested<'a>(document: &'a Value, outer: &str, inner: &str) -> (found: Option<&'a Value>)
    ensures
        match found {
            Some(value) => nested_member(*document, outer@, inner@) == Some(*value),
            None => nested_member(*document, outer@, inner@) is None,
        },
{
    match member(document, outer) {
        Some(middle) => member(middle, inner),
        None => None,
    }
}

/// Reads the calendar day of a document's timestamp.
pub fn timestamp_day(document: &Value) -> (day: Result<i32, RecordError>)
    ensures
        match day {
            Ok(d) => document_day(*document) == Some(d),
            Err(e) => document_day(*document) is None && e
                == RecordError::MissingOrInvalidTimestamp,
        },
{
    let text = match lookup_nested(document, "t", "$date") {
        Some(date) => string_of(date),
        None => None,
    };
    match text {
        Some(text) => match parse_day(text) {
            Ok(day) => Ok(day),
            Err(_) => Err(RecordError::MissingOrInvalidTimestamp),
        },
        None => Err(RecordError::MissingOrInvalidTimestamp),
    }
}

/// Classifies a document by its command object. A document without one is not
/// classified.
pub fn classify(document: &Value) -> (kind: Option<OperationKind>)
    ensures
        kind == document_kind(*document),
        document_command(*document) is None ==> kind is None,
{
    match lookup_nested(document, "attr", "command") {
        Some(command) => find_command(command),
        None => None,
    }
}

/// Reads one line of the log.
pub fn read_record(line: &str) -> (record: Result<LogRecord, RecordError>)
    ensures
        record == line_record(line@),
{
    match parse_document(line) {
        Ok(document) => match timestamp_day(&document) {
            Ok(day) => Ok(LogRecord { day, kind: classify(&document) }),
            Err(error) => Err(error),
        },
        Err(_) => Err(RecordError::MalformedRecord),
    }
}

/// A line that parses and carries a valid timestamp but no command object is read as
/// a record without a kind: it is skipped, not refused.
pub proof fn lemma_no_command_is_skipped(line: Seq<char>)
    requires
        json_document(line) matches Some(document) && document_day(document) is Some
            && document_command(document) is None,
    ensures
        line_record(line) matches Ok(record) && record.kind is None,
{
}

} // verus!
