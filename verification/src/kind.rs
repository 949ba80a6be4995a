//! The closed set of operation kinds, in their order of precedence.

use vstd::prelude::*;

verus! {

/// How many operation kinds there are.
pub const KIND_COUNT: usize = 7;

/// A recognized operation. The variants stand in precedence order: where a command
/// names several of them, the earliest one classifies it.
#[derive(Clone, Copy, Debug, PartialEq, Eq, Structural, Hash)]
pub enum OperationKind {
    Delete,
    Find,
    FindAndModify,
    GetMore,
    Insert,
    ResetError,
    Update,
}

impl OperationKind {
    /// The position of the kind in the precedence order, from 0.
    pub open spec fn rank(self) -> int {
        match self {
            OperationKind::Delete => 0,
            OperationKind::Find => 1,
            OperationKind::FindAndModify => 2,
            OperationKind::GetMore => 3,
            OperationKind::Insert => 4,
            OperationKind::ResetError => 5,
            OperationKind::Update => 6,
        }
    }

    /// The kind that stands at position `rank`. A position before the first stands for
    /// the first kind, one past the last for the last kind.
    pub open spec fn of_rank(rank: int) -> OperationKind {
        if rank <= 0 {
            OperationKind::Delete
        } else if rank == 1 {
            OperationKind::Find
        } else if rank == 2 {
            OperationKind::FindAndModify
        } else if rank == 3 {
            OperationKind::GetMore
        } else if rank == 4 {
            OperationKind::Insert
        } else if rank == 5 {
            OperationKind::ResetError
        } else {
            OperationKind::Update
        }
    }

    /// The command name by which a log record refers to the kind. Names are
    /// case-sensitive.
    pub open spec fn label(self) -> Seq<char> {
        match self {
            OperationKind::Delete => "delete"@,
            OperationKind::Find => "find"@,
            OperationKind::FindAndModify => "findAndModify"@,
            OperationKind::GetMore => "getMore"@,
            OperationKind::Insert => "insert"@,
            OperationKind::ResetError => "resetError"@,
            OperationKind::Update => "update"@,
        }
    }

    /// The position of the kind in the precedence order.
    pub fn index(self) -> (i: usize)
        ensures
            i == self.rank(),
            i < KIND_COUNT,
    {
        match self {
            OperationKind::Delete => 0,
            OperationKind::Find => 1,
            OperationKind::FindAndModify => 2,
            OperationKind::GetMore => 3,
            OperationKind::Insert => 4,
            OperationKind::ResetError => 5,
            OperationKind::Update => 6,
        }
    }

    /// The kind at position `index` of the precedence order, or `None` past its end.
    pub fn from_index(index: usize) -> (kind: Option<OperationKind>)
        ensures
            index < KIND_COUNT ==> kind == Some(OperationKind::of_rank(index as int)),
            index >= KIND_COUNT ==> kind is None,
    {
        match index {
            0 => Some(OperationKind::Delete),
            1 => Some(OperationKind::Find),
            2 => Some(OperationKind::FindAndModify),
            3 => Some(OperationKind::GetMore),
            4 => Some(OperationKind::Insert),
            5 => Some(OperationKind::ResetError),
            6 => Some(OperationKind::Update),
            _ => None,
        }
    }

    /// The command name of the kind.
    pub fn name(self) -> (name: &'static str)
        ensures
            name@ == self.label(),
    {
        match self {
            OperationKind::Delete => "delete",
            OperationKind::Find => "find",
            OperationKind::FindAndModify => "findAndModify",
            OperationKind::GetMore => "getMore",
            OperationKind::Insert => "insert",
            OperationKind::ResetError => "resetError",
            OperationKind::Update => "update",
        }
    }
}

/// Ranks and kinds correspond one to one.
pub proof fn lemma_rank_round_trip(kind: OperationKind)
    ensures
        0 <= kind.rank() < KIND_COUNT,
        OperationKind::of_rank(kind.rank()) == kind,
{
}

} // verus!
