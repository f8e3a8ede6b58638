//! The history of the states of InfiniBand partitions.

use vstd::prelude::*;
use vstd::string::*;

use crate::db::{statement3, Bind, BindView, ConfigVersion, Statement, StatementView};

verus! {

/// Writes the history of InfiniBand partitions.
pub struct IBPartitionStateHistory;

/// The version that a state is stored under: the one that the record moves to.
pub open spec fn stored_version(version: ConfigVersion) -> Seq<char> {
    version.next@
}

/// The statement that stores one state of a partition.
pub open spec fn insert_statement(
    partition_id: u128,
    state: Seq<char>,
    state_version: Seq<char>,
) -> StatementView {
    StatementView {
        query:
            "INSERT INTO ib_partition_state_history (partition_id, state, state_version) VALUES ($1, $2, $3)"@,
        binds: seq![
            BindView::Uuid(partition_id),
            BindView::Json(state),
            BindView::Text(state_version),
        ],
    }
}

impl IBPartitionStateHistory {
    /// Stores a state under the version that follows the one that the record
    /// is at.
    pub fn persist(id: u128, version: ConfigVersion, state: String) -> (r: Statement)
        ensures
            r@ == insert_statement(id, state@, version.next@),
            r@ == insert_statement(id, state@, stored_version(version)),
    {
        persist(id, state, version.next)
    }
}

/// Stores one state of a partition; the state in JSON.
pub fn persist(partition_id: u128, state: String, state_version: String) -> (r: Statement)
    ensures
        r@ == insert_statement(partition_id, state@, state_version@),
{
    statement3(
        "INSERT INTO ib_partition_state_history (partition_id, state, state_version) VALUES ($1, $2, $3)",
        Bind::Uuid(partition_id),
        Bind::Json(state),
        Bind::Text(state_version),
    )
}

/// A stored state is bound to the columns that the statement names, in their
/// order: the partition, its state in JSON, and the version.
pub proof fn law_state_is_stored_with_its_partition(
    partition_id: u128,
    state: Seq<char>,
    state_version: Seq<char>,
)
    ensures
        ({
            let statement = insert_statement(partition_id, state, state_version);
            &&& statement.query
                == "INSERT INTO ib_partition_state_history (partition_id, state, state_version) VALUES ($1, $2, $3)"@
            &&& statement.binds.len() == 3
            &&& statement.binds[0] == BindView::Uuid(partition_id)
            &&& statement.binds[1] == BindView::Json(state)
            &&& statement.binds[2] == BindView::Text(state_version)
        }),
{
}

/// A state is stored under the version that its record moves to, and the
/// other one makes no difference.
pub proof fn law_state_is_stored_under_its_version(a: ConfigVersion, b: ConfigVersion)
    requires
        a.next@ == b.next@,
    ensures
        stored_version(a) == a.next@,
        stored_version(a) == stored_version(b),
{
}

} // verus!
