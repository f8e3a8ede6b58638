//! Durable requests to remove exact memberships from an InfiniBand fabric.

use vstd::prelude::*;
use vstd::string::*;

use crate::db::{
    bind_views, statement3, Bind, BindView, DatabaseError, DatabaseErrorView, DatabaseResult,
    Statement, StatementView,
};
use crate::text::{signed_decimal, signed_decimal_text};

verus! {

/// The largest partition key.
pub const MAX_PARTITION_KEY: u16 = 0x7fff;

/// The key of an InfiniBand partition: fifteen bits.
#[derive(Clone, Copy, Debug, PartialEq, Eq, Structural)]
pub struct PartitionKey {
    key: u16,
}

impl PartitionKey {
    #[verifier::type_invariant]
    spec fn wf(self) -> bool {
        self.key <= MAX_PARTITION_KEY
    }

    /// The number of the key.
    pub closed spec fn number(self) -> u16 {
        self.key
    }

    /// The key of a number, if the number is one.
    pub fn from_u16(number: u16) -> (r: Option<Self>)
        ensures
            r is Some <==> number <= MAX_PARTITION_KEY,
            r is Some ==> r->0.number() == number,
    {
        if number <= MAX_PARTITION_KEY {
            Some(PartitionKey { key: number })
        } else {
            None
        }
    }

    /// The number of the key.
    pub fn to_u16(self) -> (r: u16)
        ensures
            r == self.number(),
            r <= MAX_PARTITION_KEY,
    {
        proof {
            use_type_invariant(&self);
        }
        self.key
    }
}

/// One membership that is to be absent.
#[derive(Clone, Debug, PartialEq, Eq)]
pub struct IbMembershipCleanupIntent {
    pub fabric: String,
    pub pkey: PartitionKey,
    pub guid: String,
}

/// A membership with its texts as sequences.
pub struct IntentView {
    pub fabric: Seq<char>,
    pub pkey: u16,
    pub guid: Seq<char>,
}

impl View for IbMembershipCleanupIntent {
    type V = IntentView;

    open spec fn view(&self) -> IntentView {
        IntentView { fabric: self.fabric@, pkey: self.pkey.number(), guid: self.guid@ }
    }
}

/// How many memberships one batch holds at most.
pub const LIST_BATCH_SIZE: i64 = 100;

/// The three values that stand for a membership.
pub open spec fn intent_binds(intent: IntentView) -> Seq<BindView> {
    seq![
        BindView::Text(intent.fabric),
        BindView::Integer(intent.pkey as i32),
        BindView::Text(intent.guid),
    ]
}

/// The statement of a query about one membership.
fn intent_statement(query: &str, intent: &IbMembershipCleanupIntent) -> (r: Statement)
    ensures
        r@ == (StatementView { query: query@, binds: intent_binds(intent@) }),
{
    statement3(
        query,
        Bind::Text(intent.fabric.clone()),
        Bind::Integer(intent.pkey.to_u16() as i32),
        Bind::Text(intent.guid.clone()),
    )
}

/// The query that stores a membership unless it is stored already.
pub open spec fn create_query() -> Seq<char> {
    "INSERT INTO ib_membership_cleanup_intents (fabric, pkey, guid)
        VALUES ($1, $2, $3)
        ON CONFLICT (fabric, pkey, guid) DO NOTHING"@
}

/// The statement that stores a membership.
pub open spec fn create_statement(intent: IntentView) -> StatementView {
    StatementView { query: create_query(), binds: intent_binds(intent) }
}

/// Makes a membership's absence durable; one that is stored already stays as
/// it is.
pub fn create(intent: &IbMembershipCleanupIntent) -> (r: Statement)
    ensures
        r@ == create_statement(intent@),
{
    intent_statement(
        "INSERT INTO ib_membership_cleanup_intents (fabric, pkey, guid)
        VALUES ($1, $2, $3)
        ON CONFLICT (fabric, pkey, guid) DO NOTHING",
        intent,
    )
}

/// The values that say after which membership a batch begins: none for the
/// first batch.
pub open spec fn batch_binds(after: Option<IntentView>) -> Seq<BindView> {
    match after {
        Some(intent) => seq![
            BindView::NullableText(Some(intent.fabric)),
            BindView::NullableInteger(Some(intent.pkey as i32)),
            BindView::NullableText(Some(intent.guid)),
            BindView::BigInt(LIST_BATCH_SIZE),
        ],
        None => seq![
            BindView::NullableText(None),
            BindView::NullableInteger(None),
            BindView::NullableText(None),
            BindView::BigInt(LIST_BATCH_SIZE),
        ],
    }
}

/// The statement that reads the batch after a membership, or the first.
pub open spec fn list_statement(after: Option<IntentView>) -> StatementView {
    StatementView {
        query: "SELECT fabric, pkey, guid
        FROM ib_membership_cleanup_intents
        WHERE $1::text IS NULL
           OR (fabric, pkey, guid) > ($1::text, $2::integer, $3::text)
        ORDER BY fabric, pkey, guid
        LIMIT $4"@,
        binds: batch_binds(after),
    }
}

/// Reads the next batch in the order of the three values, after a membership
/// or from the start.
pub fn list_batch(after: Option<&IbMembershipCleanupIntent>) -> (r: Statement)
    ensures
        r@ == list_statement(
            match after {
                Some(intent) => Some(intent@),
                None => None,
            },
        ),
{
    let mut binds: Vec<Bind> = Vec::new();
    match after {
        Some(intent) => {
            binds.push(Bind::NullableText(Some(intent.fabric.clone())));
            binds.push(Bind::NullableInteger(Some(intent.pkey.to_u16() as i32)));
            binds.push(Bind::NullableText(Some(intent.guid.clone())));
        },
        None => {
            binds.push(Bind::NullableText(None));
            binds.push(Bind::NullableInteger(None));
            binds.push(Bind::NullableText(None));
        },
    }
    binds.push(Bind::BigInt(LIST_BATCH_SIZE));
    proof {
        assert(bind_views(binds@) =~= batch_binds(
            match after {
                Some(intent) => Some(intent@),
                None => None,
            },
        ));
    }
    Statement {
        query: "SELECT fabric, pkey, guid
        FROM ib_membership_cleanup_intents
        WHERE $1::text IS NULL
           OR (fabric, pkey, guid) > ($1::text, $2::integer, $3::text)
        ORDER BY fabric, pkey, guid
        LIMIT $4".to_owned(),
        binds,
    }
}

/// A stored row with its texts as sequences.
pub struct RowView {
    pub fabric: Seq<char>,
    pub pkey: i32,
    pub guid: Seq<char>,
}

/// The views of stored rows.
pub open spec fn row_views(rows: Seq<(String, i32, String)>) -> Seq<RowView> {
    rows.map_values(|r: (String, i32, String)| RowView { fabric: r.0@, pkey: r.1, guid: r.2@ })
}

/// Whether a stored number is a partition key.
pub open spec fn valid_pkey(pkey: i32) -> bool {
    0 <= pkey <= MAX_PARTITION_KEY
}

/// The membership of a row.
pub open spec fn row_intent(row: RowView) -> IntentView {
    IntentView { fabric: row.fabric, pkey: row.pkey as u16, guid: row.guid }
}

/// The row of a membership.
pub open spec fn intent_row(intent: IntentView) -> RowView {
    RowView { fabric: intent.fabric, pkey: intent.pkey as i32, guid: intent.guid }
}

/// The first row whose number is no partition key, counted from the start.
pub open spec fn first_invalid(rows: Seq<RowView>, i: int) -> bool {
    &&& 0 <= i < rows.len()
    &&& !valid_pkey(rows[i].pkey)
    &&& forall|k: int| 0 <= k < i ==> valid_pkey((#[trigger] rows[k]).pkey)
}

/// The views of memberships.
pub open spec fn intent_views(intents: Seq<IbMembershipCleanupIntent>) -> Seq<IntentView> {
    intents.map_values(|i: IbMembershipCleanupIntent| i@)
}

/// What a row with a number that is no partition key is answered with.
pub open spec fn invalid_pkey_error(pkey: i32) -> DatabaseErrorView {
    DatabaseErrorView::Internal {
        message: "ib_membership_cleanup_intents contains invalid pkey "@ + signed_decimal(
            pkey as int,
        ),
    }
}

/// The memberships of the rows of a batch, or the error that names the first
/// row whose number is no partition key.
pub open spec fn batch_of(rows: Seq<RowView>) -> Result<Seq<IntentView>, DatabaseErrorView> {
    if forall|i: int| 0 <= i < rows.len() ==> valid_pkey((#[trigger] rows[i]).pkey) {
        Ok(rows.map_values(|row: RowView| row_intent(row)))
    } else {
        Err(invalid_pkey_error(rows[choose|i: int| first_invalid(rows, i)].pkey))
    }
}

/// A result seen through the views of its two sides.
pub open spec fn batch_result(r: DatabaseResult<Vec<IbMembershipCleanupIntent>>) -> Result<
    Seq<IntentView>,
    DatabaseErrorView,
> {
    match r {
        Ok(intents) => Ok(intent_views(intents@)),
        Err(error) => Err(error@),
    }
}

/// The memberships of the rows of a batch, in their order. A row whose
/// number is no partition key is an error, and the first such row is named.
pub fn read_batch(rows: Vec<(String, i32, String)>) -> (r: DatabaseResult<
    Vec<IbMembershipCleanupIntent>,
>)
    ensures
        match r {
            Ok(intents) => (forall|i: int|
                0 <= i < rows.len() ==> valid_pkey((#[trigger] row_views(rows@)[i]).pkey))
                && intent_views(intents@) == row_views(rows@).map_values(
                |row: RowView| row_intent(row),
            ),
            Err(error) => exists|i: int| #[trigger]
                first_invalid(row_views(rows@), i) && error@ == invalid_pkey_error(
                    row_views(rows@)[i].pkey,
                ),
        },
        batch_result(r) == batch_of(row_views(rows@)),
{
    let ghost all = row_views(rows@);
    let mut intents: Vec<IbMembershipCleanupIntent> = Vec::new();
    let mut i: usize = 0;
    while i < rows.len()
        invariant
            i <= rows.len(),
            all == row_views(rows@),
            intents.len() == i,
            forall|k: int| 0 <= k < i ==> valid_pkey((#[trigger] all[k]).pkey),
            forall|k: int| 0 <= k < i ==> (#[trigger] intents[k])@ == row_intent(all[k]),
        decreases rows.len() - i,
    {
        let pkey: i32 = rows[i].1;
        assert(all[i as int].pkey == pkey);
        let key = if 0 <= pkey && pkey <= 0xffff {
            PartitionKey::from_u16(pkey as u16)
        } else {
            None
        };
        match key {
            Some(key) => {
                intents.push(
                    IbMembershipCleanupIntent {
                        fabric: rows[i].0.clone(),
                        pkey: key,
                        guid: rows[i].2.clone(),
                    },
                );
            },
            None => {
                let number = signed_decimal_text(pkey);
                assert(first_invalid(all, i as int));
                proof {
                    law_batch_error_is_settled(
                        all,
                        i as int,
                        choose|k: int| first_invalid(all, k),
                    );
                }
                return Err(
                    DatabaseError::Internal {
                        message:
                            "ib_membership_cleanup_intents contains invalid pkey ".to_owned().concat(
                            number.as_str(),
                        ),
                    },
                );
            },
        }
        i += 1;
    }
    assert(intent_views(intents@) =~= all.map_values(|row: RowView| row_intent(row)));
    Ok(intents)
}

/// The query that removes a membership.
pub open spec fn supersede_query() -> Seq<char> {
    "DELETE FROM ib_membership_cleanup_intents
        WHERE fabric = $1 AND pkey = $2 AND guid = $3"@
}

/// The statement that removes a membership.
pub open spec fn supersede_statement(intent: IntentView) -> StatementView {
    StatementView { query: supersede_query(), binds: intent_binds(intent) }
}

/// Removes exactly one membership's request, once the membership is wanted
/// again. A cleanup that succeeded is no reason to.
pub fn supersede_for_live_presence(intent: &IbMembershipCleanupIntent) -> (r: Statement)
    ensures
        r@ == supersede_statement(intent@),
{
    intent_statement(
        "DELETE FROM ib_membership_cleanup_intents
        WHERE fabric = $1 AND pkey = $2 AND guid = $3",
        intent,
    )
}

/// Whether a request was there, by the number of rows that were removed.
pub open spec fn was_there(rows_affected: u64) -> bool {
    rows_affected == 1
}

/// Whether there was a request to remove, by the number of rows that were.
pub fn superseded(rows_affected: u64) -> (r: bool)
    ensures
        r == (rows_affected == 1),
        r == was_there(rows_affected),
{
    rows_affected == 1
}

/// Every membership is stored under a number that reads back as its key: the
/// row of a membership gives the membership.
pub proof fn law_stored_membership_reads_back(intent: IntentView)
    requires
        intent.pkey <= MAX_PARTITION_KEY,
    ensures
        valid_pkey(intent_row(intent).pkey),
        row_intent(intent_row(intent)) == intent,
        intent_binds(intent) == seq![
            BindView::Text(intent_row(intent).fabric),
            BindView::Integer(intent_row(intent).pkey),
            BindView::Text(intent_row(intent).guid),
        ],
{
}

/// Memberships that differ are stored as rows that differ.
pub proof fn law_memberships_do_not_collide(a: IntentView, b: IntentView)
    requires
        a != b,
    ensures
        intent_row(a) != intent_row(b),
{
    if intent_row(a) == intent_row(b) {
        assert(a.pkey as i32 == b.pkey as i32);
        assert(a.pkey == b.pkey);
    }
}

/// At most one row of a batch is the first invalid one, so the error of a
/// batch is settled by its rows.
pub proof fn law_batch_error_is_settled(rows: Seq<RowView>, i: int, j: int)
    requires
        first_invalid(rows, i),
        first_invalid(rows, j),
    ensures
        i == j,
{
    if i < j {
        assert(valid_pkey(rows[i].pkey));
    } else if j < i {
        assert(valid_pkey(rows[j].pkey));
    }
}

/// The row that the three values bound to a statement stand for.
pub open spec fn bound_row(binds: Seq<BindView>) -> RowView {
    RowView {
        fabric: binds[0]->Text_0,
        pkey: binds[1]->Integer_0,
        guid: binds[2]->Text_0,
    }
}

/// The rows that are stored after a statement of this module, by the meaning
/// that SQL gives it: an insert that does nothing on conflict adds its row, a
/// delete by all three columns takes its row, and a select changes nothing.
pub open spec fn table_after(table: Set<RowView>, statement: StatementView) -> Set<RowView> {
    if statement.query == create_query() {
        table.insert(bound_row(statement.binds))
    } else if statement.query == supersede_query() {
        table.remove(bound_row(statement.binds))
    } else {
        table
    }
}

/// How many rows a delete by all three columns takes.
pub open spec fn rows_taken(table: Set<RowView>, statement: StatementView) -> u64 {
    if table.contains(bound_row(statement.binds)) {
        1
    } else {
        0
    }
}

/// The three queries differ.
proof fn lemma_queries_differ(after: Option<IntentView>)
    ensures
        create_query() != supersede_query(),
        list_statement(after).query != create_query(),
        list_statement(after).query != supersede_query(),
{
    reveal_strlit(
        "INSERT INTO ib_membership_cleanup_intents (fabric, pkey, guid)
        VALUES ($1, $2, $3)
        ON CONFLICT (fabric, pkey, guid) DO NOTHING",
    );
    reveal_strlit(
        "DELETE FROM ib_membership_cleanup_intents
        WHERE fabric = $1 AND pkey = $2 AND guid = $3",
    );
    reveal_strlit(
        "SELECT fabric, pkey, guid
        FROM ib_membership_cleanup_intents
        WHERE $1::text IS NULL
           OR (fabric, pkey, guid) > ($1::text, $2::integer, $3::text)
        ORDER BY fabric, pkey, guid
        LIMIT $4",
    );
    assert(create_query()[0] == 'I');
    assert(supersede_query()[0] == 'D');
    assert(list_statement(after).query[0] == 'S');
}

/// Storing a membership adds its row and leaves every other row; storing one
/// that is stored, or storing it again, changes nothing.
pub proof fn law_create_is_idempotent(table: Set<RowView>, intent: IntentView)
    ensures
        ({
            let once = table_after(table, create_statement(intent));
            &&& once == table.insert(intent_row(intent))
            &&& table_after(once, create_statement(intent)) == once
            &&& table.contains(intent_row(intent)) ==> once == table
            &&& forall|other: RowView|
                other != intent_row(intent) ==> (#[trigger] once.contains(other) == table.contains(
                    other,
                ))
        }),
{
    let row = intent_row(intent);
    assert(bound_row(create_statement(intent).binds) == row);
    assert(table.insert(row).insert(row) =~= table.insert(row));
    if table.contains(row) {
        assert(table.insert(row) =~= table);
    }
}

/// Superseding a membership takes exactly its row, leaves every other, and
/// tells whether it was there: a second time it tells that it was not, and
/// after storing a membership that was not there it restores what was.
pub proof fn law_supersede_takes_the_exact_row(table: Set<RowView>, intent: IntentView)
    ensures
        ({
            let row = intent_row(intent);
            let statement = supersede_statement(intent);
            let after = table_after(table, statement);
            let created = table_after(table, create_statement(intent));
            &&& after == table.remove(row)
            &&& (rows_taken(table, statement) == 1) == table.contains(row)
            &&& rows_taken(after, statement) != 1
            &&& forall|other: RowView|
                other != row ==> (#[trigger] after.contains(other) == table.contains(other))
            &&& rows_taken(created, statement) == 1
            &&& !table.contains(row) ==> table_after(created, statement) == table
        }),
{
    lemma_queries_differ(None);
    let row = intent_row(intent);
    assert(bound_row(supersede_statement(intent).binds) == row);
    assert(bound_row(create_statement(intent).binds) == row);
    if !table.contains(row) {
        assert(table.insert(row).remove(row) =~= table);
    }
}

/// Reading a batch changes nothing.
pub proof fn law_listing_changes_nothing(table: Set<RowView>, after: Option<IntentView>)
    ensures
        table_after(table, list_statement(after)) == table,
{
    lemma_queries_differ(after);
}

/// Whether an order of rows is strict and total, as the database's order of
/// the three columns is.
pub open spec fn strict_order(before: spec_fn(RowView, RowView) -> bool) -> bool {
    &&& forall|a: RowView| !#[trigger] before(a, a)
    &&& forall|a: RowView, b: RowView, c: RowView|
        #[trigger] before(a, b) && #[trigger] before(b, c) ==> before(a, c)
    &&& forall|a: RowView, b: RowView| a != b ==> #[trigger] before(a, b) || before(b, a)
}

/// The row after which a batch begins, by the values bound to its statement.
pub open spec fn bound_after(binds: Seq<BindView>) -> Option<RowView> {
    match (binds[0], binds[1], binds[2]) {
        (
            BindView::NullableText(Some(fabric)),
            BindView::NullableInteger(Some(pkey)),
            BindView::NullableText(Some(guid)),
        ) => Some(RowView { fabric, pkey, guid }),
        _ => None,
    }
}

/// Whether a row comes after a mark, if there is one.
pub open spec fn comes_after(
    before: spec_fn(RowView, RowView) -> bool,
    mark: Option<RowView>,
    row: RowView,
) -> bool {
    match mark {
        Some(m) => before(m, row),
        None => true,
    }
}

/// Whether these rows are what the statement of a batch selects, by the
/// meaning that SQL gives it: the first rows after the mark, in the order of
/// the columns, no more than the limit.
pub open spec fn is_batch(
    before: spec_fn(RowView, RowView) -> bool,
    table: Set<RowView>,
    statement: StatementView,
    rows: Seq<RowView>,
) -> bool {
    let mark = bound_after(statement.binds);
    let limit = statement.binds[3]->BigInt_0;
    &&& rows.len() <= limit
    &&& forall|i: int|
        0 <= i < rows.len() ==> table.contains(#[trigger] rows[i]) && comes_after(
            before,
            mark,
            rows[i],
        )
    &&& forall|i: int, j: int|
        #![trigger rows[i], rows[j]]
        0 <= i < j < rows.len() ==> before(rows[i], rows[j])
    &&& forall|row: RowView| #[trigger]
        table.contains(row) && comes_after(before, mark, row) && !rows.contains(row) ==> rows.len()
            == limit && forall|i: int| 0 <= i < rows.len() ==> before(#[trigger] rows[i], row)
}

/// A membership that was stored is in the first batch, unless a full batch
/// of memberships comes before it; in a table that fits one batch it is in
/// the batch, and reads back.
pub proof fn law_stored_membership_lists(
    before: spec_fn(RowView, RowView) -> bool,
    table: Set<RowView>,
    intent: IntentView,
    rows: Seq<RowView>,
)
    requires
        strict_order(before),
        intent.pkey <= MAX_PARTITION_KEY,
        is_batch(
            before,
            table_after(table, create_statement(intent)),
            list_statement(None),
            rows,
        ),
    ensures
        rows.contains(intent_row(intent)) || (rows.len() == LIST_BATCH_SIZE && forall|i: int|
            0 <= i < rows.len() ==> before(#[trigger] rows[i], intent_row(intent))),
        table.finite() && table.len() < LIST_BATCH_SIZE ==> rows.contains(intent_row(intent)),
        row_intent(intent_row(intent)) == intent,
{
    let row = intent_row(intent);
    let now = table_after(table, create_statement(intent));
    law_create_is_idempotent(table, intent);
    assert(now.contains(row));
    if table.finite() && table.len() < LIST_BATCH_SIZE && !rows.contains(row) {
        assert(rows.no_duplicates()) by {
            assert forall|i: int, j: int|
                0 <= i < rows.len() && 0 <= j < rows.len() && i != j implies rows[i] != rows[j] by {
                if i < j {
                    assert(before(rows[i], rows[j]));
                } else {
                    assert(before(rows[j], rows[i]));
                }
            }
        }
        rows.unique_seq_to_set();
        assert(rows.to_set().subset_of(table)) by {
            assert forall|r: RowView| rows.to_set().contains(r) implies table.contains(r) by {
                let i = choose|i: int| 0 <= i < rows.len() && rows[i] == r;
                assert(now.contains(rows[i]));
                assert(r != row);
            }
        }
        vstd::set_lib::lemma_len_subset(rows.to_set(), table);
    }
}

/// The batch after the last membership of a batch goes on where that ended:
/// all of it comes later, no membership is in both, and one that is in
/// neither comes after a full second batch.
pub proof fn law_batches_skip_nothing(
    before: spec_fn(RowView, RowView) -> bool,
    table: Set<RowView>,
    after: Option<IntentView>,
    first: Seq<RowView>,
    second: Seq<RowView>,
    row: RowView,
)
    requires
        strict_order(before),
        first.len() > 0,
        valid_pkey(first.last().pkey),
        is_batch(before, table, list_statement(after), first),
        is_batch(before, table, list_statement(Some(row_intent(first.last()))), second),
        table.contains(row),
        comes_after(before, bound_after(list_statement(after).binds), row),
    ensures
        forall|i: int, j: int|
            #![trigger first[i], second[j]]
            0 <= i < first.len() && 0 <= j < second.len() ==> before(first[i], second[j]),
        !(first.contains(row) && second.contains(row)),
        !first.contains(row) && !second.contains(row) ==> second.len() == LIST_BATCH_SIZE && forall|
            j: int,
        |
            0 <= j < second.len() ==> before(#[trigger] second[j], row),
{
    let last = first.last();
    let next = list_statement(Some(row_intent(last)));
    assert(bound_after(next.binds) == Some(last));
    assert forall|i: int, j: int|
        #![trigger first[i], second[j]]
        0 <= i < first.len() && 0 <= j < second.len() implies before(first[i], second[j]) by {
        assert(before(last, second[j]));
        if i < first.len() - 1 {
            assert(before(first[i], first[first.len() - 1]));
        }
    }
    if first.contains(row) && second.contains(row) {
        let i = choose|i: int| 0 <= i < first.len() && first[i] == row;
        let j = choose|j: int| 0 <= j < second.len() && second[j] == row;
        assert(before(first[i], second[j]));
    }
    if !first.contains(row) {
        assert(before(first[first.len() - 1], row));
    }
}

/// A membership is stored and superseded by exactly its three values, in the
/// order of the columns that the statements name.
pub proof fn law_membership_is_bound_by_its_three_values(intent: IntentView)
    ensures
        create_statement(intent).query
            == "INSERT INTO ib_membership_cleanup_intents (fabric, pkey, guid)
        VALUES ($1, $2, $3)
        ON CONFLICT (fabric, pkey, guid) DO NOTHING"@,
        supersede_statement(intent).query == "DELETE FROM ib_membership_cleanup_intents
        WHERE fabric = $1 AND pkey = $2 AND guid = $3"@,
        create_statement(intent).binds == supersede_statement(intent).binds,
        create_statement(intent).binds.len() == 3,
        create_statement(intent).binds[0] == BindView::Text(intent.fabric),
        create_statement(intent).binds[1] matches BindView::Integer(n) && n == intent.pkey,
        create_statement(intent).binds[2] == BindView::Text(intent.guid),
{
}

/// A batch is of at most a hundred memberships and begins after the very
/// membership given, or at the start where none is.
pub proof fn law_batch_begins_after_its_mark(intent: IntentView)
    ensures
        ({
            let first = list_statement(None);
            let next = list_statement(Some(intent));
            &&& first.query == next.query
            &&& next.query == "SELECT fabric, pkey, guid
        FROM ib_membership_cleanup_intents
        WHERE $1::text IS NULL
           OR (fabric, pkey, guid) > ($1::text, $2::integer, $3::text)
        ORDER BY fabric, pkey, guid
        LIMIT $4"@
            &&& first.binds == seq![
                BindView::NullableText(None),
                BindView::NullableInteger(None),
                BindView::NullableText(None),
                BindView::BigInt(100),
            ]
            &&& next.binds.len() == 4
            &&& next.binds[0] == BindView::NullableText(Some(intent.fabric))
            &&& next.binds[1] matches BindView::NullableInteger(Some(n)) && n == intent.pkey
            &&& next.binds[2] == BindView::NullableText(Some(intent.guid))
            &&& next.binds[3] == BindView::BigInt(100)
        }),
{
}

/// A row is a membership where its number has fifteen bits, and reads as the
/// membership of its three values; any other number is an error that tells
/// it.
pub proof fn law_row_reads_as_its_membership(row: RowView)
    ensures
        valid_pkey(row.pkey) <==> 0 <= row.pkey <= 32767,
        0 <= row.pkey <= 32767 ==> row_intent(row).fabric == row.fabric && row_intent(row).pkey
            == row.pkey && row_intent(row).guid == row.guid,
        invalid_pkey_error(row.pkey) == (DatabaseErrorView::Internal {
            message: "ib_membership_cleanup_intents contains invalid pkey "@ + signed_decimal(
                row.pkey as int,
            ),
        }),
{
}

/// The first invalid row is one that is no membership after rows that all
/// are.
pub proof fn law_first_invalid_row(rows: Seq<RowView>, i: int)
    ensures
        first_invalid(rows, i) <==> 0 <= i < rows.len() && !(0 <= rows[i].pkey <= 32767) && forall|
            k: int,
        |
            0 <= k < i ==> 0 <= (#[trigger] rows[k]).pkey <= 32767,
{
    if first_invalid(rows, i) {
        assert forall|k: int| 0 <= k < i implies 0 <= (#[trigger] rows[k]).pkey <= 32767 by {
            assert(valid_pkey(rows[k].pkey));
        }
    }
}

/// Memberships and rows are seen value by value.
pub proof fn law_membership_views(
    intent: IbMembershipCleanupIntent,
    rows: Seq<(String, i32, String)>,
    intents: Seq<IbMembershipCleanupIntent>,
    i: int,
)
    requires
        0 <= i < rows.len(),
        0 <= i < intents.len(),
    ensures
        intent@.fabric == intent.fabric@,
        intent@.pkey == intent.pkey.number(),
        intent@.guid == intent.guid@,
        row_views(rows).len() == rows.len(),
        row_views(rows)[i] == (RowView { fabric: rows[i].0@, pkey: rows[i].1, guid: rows[i].2@ }),
        intent_views(intents).len() == intents.len(),
        intent_views(intents)[i] == intents[i]@,
{
}

/// A batch reads exactly where every number in it has fifteen bits: as one
/// membership for each row, in order and with the values of the row. Where a
/// number has not, the batch is an error that tells the first such number.
pub proof fn law_batch_reads_row_by_row(rows: Seq<RowView>, i: int)
    requires
        0 <= i < rows.len(),
    ensures
        batch_of(rows) is Ok <==> forall|k: int|
            0 <= k < rows.len() ==> 0 <= (#[trigger] rows[k]).pkey <= 32767,
        batch_of(rows) matches Ok(intents) ==> intents.len() == rows.len() && intents[i].fabric
            == rows[i].fabric && intents[i].pkey == rows[i].pkey && intents[i].guid == rows[i].guid,
        !(0 <= rows[i].pkey <= 32767) && (forall|k: int|
            0 <= k < i ==> 0 <= (#[trigger] rows[k]).pkey <= 32767) ==> batch_of(rows) == Err::<
            Seq<IntentView>,
            DatabaseErrorView,
        >(
            DatabaseErrorView::Internal {
                message: "ib_membership_cleanup_intents contains invalid pkey "@ + signed_decimal(
                    rows[i].pkey as int,
                ),
            },
        ),
{
    if batch_of(rows) is Ok {
        assert forall|k: int| 0 <= k < rows.len() implies 0 <= (#[trigger] rows[k]).pkey
            <= 32767 by {
            assert(valid_pkey(rows[k].pkey));
        }
    }
    if !(0 <= rows[i].pkey <= 32767) && (forall|k: int|
        0 <= k < i ==> 0 <= (#[trigger] rows[k]).pkey <= 32767) {
        assert(!valid_pkey(rows[i].pkey));
        law_first_invalid_row(rows, i);
        law_batch_error_is_settled(rows, i, choose|k: int| first_invalid(rows, k));
    }
}

/// Superseding a membership tells that it was there exactly where its row
/// was stored.
pub proof fn law_superseding_tells_whether_it_was_there(table: Set<RowView>, intent: IntentView)
    ensures
        was_there(rows_taken(table, supersede_statement(intent))) <==> table.contains(
            RowView {
                fabric: intent.fabric,
                pkey: intent.pkey as i32,
                guid: intent.guid,
            },
        ),
        !was_there(0),
        was_there(1),
        !was_there(2),
{
    law_supersede_takes_the_exact_row(table, intent);
}

} // verus!
