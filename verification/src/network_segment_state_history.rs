//! The history of the states of network segments.

use vstd::prelude::*;
use vstd::string::*;

use crate::db::{bind_views, statement3, Bind, BindView, ConfigVersion, Statement, StatementView};

verus! {

/// Writes the history of network segments.
pub struct NetworkSegmentStateHistoryWriter;

/// The version that a state is stored under: the one that the record is at.
pub open spec fn stored_version(version: ConfigVersion) -> Seq<char> {
    version.current@
}

/// The statement that stores one state of a segment.
pub open spec fn insert_statement(
    segment_id: u128,
    state: Seq<char>,
    state_version: Seq<char>,
) -> StatementView {
    StatementView {
        query: "INSERT INTO network_segment_state_history (segment_id, state, state_version)
            VALUES ($1, $2, $3)"@,
        binds: seq![
            BindView::Uuid(segment_id),
            BindView::Json(state),
            BindView::Text(state_version),
        ],
    }
}

impl NetworkSegmentStateHistoryWriter {
    /// Stores a state under the version that the record is at.
    pub fn persist(id: u128, version: ConfigVersion, state: String) -> (r: Statement)
        ensures
            r@ == insert_statement(id, state@, version.current@),
            r@ == insert_statement(id, state@, stored_version(version)),
    {
        persist(id, state, version.current)
    }
}

/// The statement that reads the stored states of a segment.
pub open spec fn select_statement(segment_id: u128) -> StatementView {
    StatementView {
        query: "SELECT id, segment_id, state::TEXT, state_version, timestamp
            FROM network_segment_state_history
            WHERE segment_id=$1
            ORDER BY ID asc"@,
        binds: seq![BindView::Uuid(segment_id)],
    }
}

/// Reads the stored states of a segment, the oldest first.
pub fn for_segment(segment_id: u128) -> (r: Statement)
    ensures
        r@ == select_statement(segment_id),
{
    let mut binds: Vec<Bind> = Vec::new();
    binds.push(Bind::Uuid(segment_id));
    assert(bind_views(binds@) =~= seq![BindView::Uuid(segment_id)]);
    Statement {
        query: "SELECT id, segment_id, state::TEXT, state_version, timestamp
            FROM network_segment_state_history
            WHERE segment_id=$1
            ORDER BY ID asc".to_owned(),
        binds,
    }
}

/// Stores one state of a segment for debugging; the state in JSON.
pub fn persist(segment_id: u128, state: String, state_version: String) -> (r: Statement)
    ensures
        r@ == insert_statement(segment_id, state@, state_version@),
{
    statement3(
        "INSERT INTO network_segment_state_history (segment_id, state, state_version)
            VALUES ($1, $2, $3)",
        Bind::Uuid(segment_id),
        Bind::Json(state),
        Bind::Text(state_version),
    )
}

/// One stored state of a segment, without the time at which it was stored.
pub struct HistoryRow {
    pub id: int,
    pub segment_id: u128,
    pub state: Seq<char>,
    pub state_version: Seq<char>,
}

/// Whether stored rows stand in the order of their numbers, as the database
/// gives them out.
pub open spec fn ids_ascend(table: Seq<HistoryRow>) -> bool {
    forall|i: int, j: int|
        #![trigger table[i], table[j]]
        0 <= i < j < table.len() ==> table[i].id < table[j].id
}

/// The rows after a statement of this module, by the meaning that SQL gives
/// it: an insert adds a row of its values under the next number, and a
/// select changes nothing.
pub open spec fn table_after(table: Seq<HistoryRow>, statement: StatementView, next_id: int) -> Seq<
    HistoryRow,
> {
    if statement.query == insert_statement(0, Seq::empty(), Seq::empty()).query {
        table.push(
            HistoryRow {
                id: next_id,
                segment_id: statement.binds[0]->Uuid_0,
                state: statement.binds[1]->Json_0,
                state_version: statement.binds[2]->Text_0,
            },
        )
    } else {
        table
    }
}

/// The rows that the statement for a segment selects, by the meaning that SQL
/// gives it: those of the segment, in the order of their numbers.
pub open spec fn selected(table: Seq<HistoryRow>, statement: StatementView) -> Seq<HistoryRow> {
    table.filter(|row: HistoryRow| row.segment_id == statement.binds[0]->Uuid_0)
}

/// One more row is selected where it is of the segment.
proof fn lemma_selected_push(table: Seq<HistoryRow>, row: HistoryRow, segment_id: u128)
    ensures
        selected(table.push(row), select_statement(segment_id)) == if row.segment_id == segment_id {
            selected(table, select_statement(segment_id)).push(row)
        } else {
            selected(table, select_statement(segment_id))
        },
{
    reveal(Seq::filter);
    assert(table.push(row).drop_last() =~= table);
    assert(table.push(row).last() == row);
}

/// A selection holds rows of its segment only, and keeps their order.
proof fn lemma_selected(table: Seq<HistoryRow>, segment_id: u128)
    requires
        ids_ascend(table),
    ensures
        ids_ascend(selected(table, select_statement(segment_id))),
        forall|i: int|
            0 <= i < selected(table, select_statement(segment_id)).len() ==> {
                let row = #[trigger] selected(table, select_statement(segment_id))[i];
                row.segment_id == segment_id && table.contains(row)
            },
    decreases table.len(),
{
    let found = selected(table, select_statement(segment_id));
    if table.len() == 0 {
        reveal(Seq::filter);
        assert(found =~= Seq::empty());
    } else {
        let shorter = table.drop_last();
        let last = table.last();
        let found0 = selected(shorter, select_statement(segment_id));
        assert forall|i: int, j: int|
            #![trigger shorter[i], shorter[j]]
            0 <= i < j < shorter.len() implies shorter[i].id < shorter[j].id by {
            assert(table[i].id < table[j].id);
        }
        lemma_selected(shorter, segment_id);
        assert(shorter.push(last) =~= table);
        lemma_selected_push(shorter, last, segment_id);
        assert forall|i: int| 0 <= i < found0.len() implies (#[trigger] found0[i]).id < last.id
            && table.contains(found0[i]) by {
            let k = choose|k: int| 0 <= k < shorter.len() && shorter[k] == found0[i];
            assert(table[k] == found0[i]);
            assert(table[k].id < table[table.len() - 1].id);
        }
        assert forall|i: int| 0 <= i < found.len() implies (#[trigger] found[i]).segment_id
            == segment_id && table.contains(found[i]) by {
            if i < found0.len() {
                assert(found[i] == found0[i]);
            } else {
                assert(table[table.len() - 1] == last);
            }
        }
        assert forall|i: int, j: int|
            #![trigger found[i], found[j]]
            0 <= i < j < found.len() implies found[i].id < found[j].id by {
            assert(found[i] == found0[i]);
            if j < found0.len() {
                assert(found[j] == found0[j]);
            }
        }
    }
}

/// A state that is stored for a segment is appended to what is read of that
/// segment, and a state of another segment changes nothing there; what is
/// read is of the segment only, in ascending order of the numbers, and
/// reading changes nothing.
pub proof fn law_stored_state_is_appended(
    table: Seq<HistoryRow>,
    segment_id: u128,
    state: Seq<char>,
    state_version: Seq<char>,
    id: int,
    other_id: u128,
    other_state: Seq<char>,
    other_version: Seq<char>,
    later_id: int,
)
    requires
        ids_ascend(table),
        table.len() > 0 ==> table.last().id < id,
        id < later_id,
        other_id != segment_id,
    ensures
        ({
            let read = select_statement(segment_id);
            let history = selected(table, read);
            let once = table_after(table, insert_statement(segment_id, state, state_version), id);
            let twice = table_after(
                once,
                insert_statement(other_id, other_state, other_version),
                later_id,
            );
            let now = selected(twice, read);
            &&& now == history.push(HistoryRow { id, segment_id, state, state_version })
            &&& forall|i: int| 0 <= i < now.len() ==> (#[trigger] now[i]).segment_id == segment_id
            &&& ids_ascend(now)
            &&& table_after(twice, read, later_id + 1) == twice
        }),
{
    let read = select_statement(segment_id);
    let row = HistoryRow { id, segment_id, state, state_version };
    let other = HistoryRow {
        id: later_id,
        segment_id: other_id,
        state: other_state,
        state_version: other_version,
    };
    lemma_selected_push(table, row, segment_id);
    lemma_selected_push(table.push(row), other, segment_id);
    let twice = table.push(row).push(other);
    assert forall|i: int, j: int|
        #![trigger twice[i], twice[j]]
        0 <= i < j < twice.len() implies twice[i].id < twice[j].id by {
        if i < table.len() {
            assert(twice[i] == table[i]);
            assert(i < table.len() - 1 ==> table[i].id < table[table.len() - 1].id);
            if j < table.len() {
                assert(twice[j] == table[j]);
            }
        }
    }
    lemma_selected(twice, segment_id);
    reveal_strlit(
        "SELECT id, segment_id, state::TEXT, state_version, timestamp
            FROM network_segment_state_history
            WHERE segment_id=$1
            ORDER BY ID asc",
    );
    reveal_strlit(
        "INSERT INTO network_segment_state_history (segment_id, state, state_version)
            VALUES ($1, $2, $3)",
    );
    assert(read.query[0] == 'S');
    assert(insert_statement(0, Seq::empty(), Seq::empty()).query[0] == 'I');
}

/// Nothing is read of a segment without stored states.
pub proof fn law_no_states_no_history(table: Seq<HistoryRow>, segment_id: u128)
    requires
        forall|i: int| 0 <= i < table.len() ==> (#[trigger] table[i]).segment_id != segment_id,
    ensures
        selected(table, select_statement(segment_id)).len() == 0,
    decreases table.len(),
{
    reveal(Seq::filter);
    if table.len() > 0 {
        let shorter = table.drop_last();
        assert forall|i: int| 0 <= i < shorter.len() implies (#[trigger] shorter[i]).segment_id
            != segment_id by {
            assert(shorter[i] == table[i]);
        }
        law_no_states_no_history(shorter, segment_id);
        assert(table[table.len() - 1] == table.last());
    }
}

/// A stored state is bound to the columns that the statement names, in their
/// order, and the states of a segment are read by that segment alone, the
/// oldest first.
pub proof fn law_state_is_stored_with_its_segment(
    segment_id: u128,
    state: Seq<char>,
    state_version: Seq<char>,
)
    ensures
        ({
            let statement = insert_statement(segment_id, state, state_version);
            &&& statement.query
                == "INSERT INTO network_segment_state_history (segment_id, state, state_version)
            VALUES ($1, $2, $3)"@
            &&& statement.binds.len() == 3
            &&& statement.binds[0] == BindView::Uuid(segment_id)
            &&& statement.binds[1] == BindView::Json(state)
            &&& statement.binds[2] == BindView::Text(state_version)
        }),
        ({
            let statement = select_statement(segment_id);
            &&& statement.query == "SELECT id, segment_id, state::TEXT, state_version, timestamp
            FROM network_segment_state_history
            WHERE segment_id=$1
            ORDER BY ID asc"@
            &&& statement.binds.len() == 1
            &&& statement.binds[0] == BindView::Uuid(segment_id)
        }),
{
}

/// A state is stored under the version that its record is at, and the
/// other one makes no difference.
pub proof fn law_state_is_stored_under_its_version(a: ConfigVersion, b: ConfigVersion)
    requires
        a.current@ == b.current@,
    ensures
        stored_version(a) == a.current@,
        stored_version(a) == stored_version(b),
{
}

} // verus!
