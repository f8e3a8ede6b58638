//! The history of the states of DPA interfaces.

use vstd::prelude::*;
use vstd::string::*;

use crate::db::{statement3, Bind, BindView, ConfigVersion, Statement, StatementView};

verus! {

/// Writes the history of DPA interfaces.
pub struct DpaInterfaceStateHistoryWriter;

/// The version that a state is stored under: the one that the record is at.
pub open spec fn stored_version(version: ConfigVersion) -> Seq<char> {
    version.current@
}

/// The statement that stores one state of an interface and returns the row.
pub open spec fn insert_statement(
    interface_id: u128,
    state: Seq<char>,
    state_version: Seq<char>,
) -> StatementView {
    StatementView {
        query: "INSERT INTO dpa_interface_state_history (interface_id, state, state_version)
            VALUES ($1, $2, $3) RETURNING interface_id, state::TEXT, state_version, timestamp"@,
        binds: seq![
            BindView::Uuid(interface_id),
            BindView::Json(state),
            BindView::Text(state_version),
        ],
    }
}

impl DpaInterfaceStateHistoryWriter {
    /// Stores a state under the version that the record is at.
    pub fn persist(id: u128, version: ConfigVersion, state: String) -> (r: Statement)
        ensures
            r@ == insert_statement(id, state@, version.current@),
            r@ == insert_statement(id, state@, stored_version(version)),
    {
        persist(id, state, version.current)
    }
}

/// Stores one state of an interface for debugging; the state in JSON.
pub fn persist(interface_id: u128, state: String, state_version: String) -> (r: Statement)
    ensures
        r@ == insert_statement(interface_id, state@, state_version@),
{
    statement3(
        "INSERT INTO dpa_interface_state_history (interface_id, state, state_version)
            VALUES ($1, $2, $3) RETURNING interface_id, state::TEXT, state_version, timestamp",
        Bind::Uuid(interface_id),
        Bind::Json(state),
        Bind::Text(state_version),
    )
}

/// A stored state is bound to the columns that the statement names, in their
/// order: the interface, its state in JSON, and the version; different
/// states are different statements.
pub proof fn law_state_is_stored_with_its_interface(
    interface_id: u128,
    state: Seq<char>,
    state_version: Seq<char>,
)
    ensures
        ({
            let statement = insert_statement(interface_id, state, state_version);
            &&& statement.query
                == "INSERT INTO dpa_interface_state_history (interface_id, state, state_version)
            VALUES ($1, $2, $3) RETURNING interface_id, state::TEXT, state_version, timestamp"@
            &&& statement.binds.len() == 3
            &&& statement.binds[0] == BindView::Uuid(interface_id)
            &&& statement.binds[1] == BindView::Json(state)
            &&& statement.binds[2] == BindView::Text(state_version)
        }),
{
}

/// A state is stored under the version that its record is at, and the
/// other one makes no difference.
pub proof fn law_state_is_stored_under_its_version(a: ConfigVersion, b: ConfigVersion)
    requires
        a.current@ == b.current@,
    ensures
        stored_version(a) == a.current@,
        stored_version(a) == stored_version(b),
{
}

} // verus!
