//! Classification of a command object as one operation kind.

use crate::json::{json_member, member};
use crate::kind::{lemma_rank_round_trip, OperationKind, KIND_COUNT};
use serde_json::Value;
use vstd::prelude::*;

verus! {

/// Whether the command object names `kind`: it is a JSON object with a member under
/// the kind's command name.
pub open spec fn names_kind(command: Value, kind: OperationKind) -> bool {
    json_member(command, kind.label()) is Some
}

/// The first kind, from position `from` of the precedence order on, that the command
/// object names.
pub open spec fn first_named_from(command: Value, from: int) -> Option<OperationKind>
    decreases KIND_COUNT - from,
{
    if from < 0 || from >= KIND_COUNT {
        None
    } else if names_kind(command, OperationKind::of_rank(from)) {
        Some(OperationKind::of_rank(from))
    } else {
        first_named_from(command, from + 1)
    }
}

/// The kind that classifies a command object: the first one in precedence order that
/// it names, if it names any.
pub open spec fn command_kind(command: Value) -> Option<OperationKind> {
    first_named_from(command, 0)
}

/// Classifies a command object by the first recognized command name among its keys:
/// the kind found is named by the object and no kind before it in the precedence
/// order is; nothing is found only where the object names no kind at all.
pub fn find_command(command: &Value) -> (found: Option<OperationKind>)
    ensures
        found == command_kind(*command),
        match found {
            Some(kind) => names_kind(*command, kind) && forall|earlier: OperationKind|
                earlier.rank() < kind.rank() ==> !names_kind(*command, earlier),
            None => forall|kind: OperationKind| !names_kind(*command, kind),
        },
{
    let mut index: usize = 0;
    while index < KIND_COUNT
        invariant
            index <= KIND_COUNT,
            command_kind(*command) == first_named_from(*command, index as int),
        decreases KIND_COUNT - index,
    {
        if let Some(kind) = OperationKind::from_index(index) {
            if member(command, kind.name()).is_some() {
                proof {
                    lemma_first_named(*command);
                }
                return Some(kind);
            }
        }
        index += 1;
    }
    proof {
        lemma_first_named(*command);
    }
    None
}

/// From any position on, the search finds a kind that the command names, passes over
/// none that it names, and fails only where it names none.
proof fn lemma_first_named_from(command: Value, from: int)
    requires
        0 <= from <= KIND_COUNT,
    ensures
        match first_named_from(command, from) {
            Some(kind) => from <= kind.rank() && names_kind(command, kind) && forall|
                earlier: OperationKind,
            |
                from <= earlier.rank() < kind.rank() ==> !names_kind(command, earlier),
            None => forall|kind: OperationKind| from <= kind.rank() ==> !names_kind(command, kind),
        },
    decreases KIND_COUNT - from,
{
    if from < KIND_COUNT {
        lemma_first_named_from(command, from + 1);
        assert forall|kind: OperationKind| kind.rank() == from implies kind
            == OperationKind::of_rank(from) by {
            lemma_rank_round_trip(kind);
        }
    } else {
        assert forall|kind: OperationKind| from <= kind.rank() implies false by {
            lemma_rank_round_trip(kind);
        }
    }
}

/// Classification picks exactly one kind wherever the command names a recognized
/// operation: the first in precedence order among those it names.
pub proof fn lemma_first_named(command: Value)
    ensures
        match command_kind(command) {
            Some(kind) => names_kind(command, kind) && forall|earlier: OperationKind|
                earlier.rank() < kind.rank() ==> !names_kind(command, earlier),
            None => forall|kind: OperationKind| !names_kind(command, kind),
        },
{
    lemma_first_named_from(command, 0);
    assert forall|kind: OperationKind| 0 <= kind.rank() by {
        lemma_rank_round_trip(kind);
    }
}

} // verus!
