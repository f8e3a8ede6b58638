//! Database statements with the values bound to them, and the errors of
//! running them.

use vstd::prelude::*;
use vstd::string::*;

verus! {

/// A value bound to a statement.
pub enum Bind {
    Uuid(u128),
    Text(String),
    /// A value in JSON, by its text.
    Json(String),
    Integer(i32),
    BigInt(i64),
    NullableText(Option<String>),
    NullableInteger(Option<i32>),
}

/// A bound value with its text as a sequence.
pub enum BindView {
    Uuid(u128),
    Text(Seq<char>),
    Json(Seq<char>),
    Integer(i32),
    BigInt(i64),
    NullableText(Option<Seq<char>>),
    NullableInteger(Option<i32>),
}

impl View for Bind {
    type V = BindView;

    open spec fn view(&self) -> BindView {
        match self {
            Bind::Uuid(id) => BindView::Uuid(*id),
            Bind::Text(text) => BindView::Text(text@),
            Bind::Json(text) => BindView::Json(text@),
            Bind::Integer(n) => BindView::Integer(*n),
            Bind::BigInt(n) => BindView::BigInt(*n),
            Bind::NullableText(text) => BindView::NullableText(
                match text {
                    Some(s) => Some(s@),
                    None => None,
                },
            ),
            Bind::NullableInteger(n) => BindView::NullableInteger(*n),
        }
    }
}

/// A statement with the values for its parameters, in order.
pub struct Statement {
    pub query: String,
    pub binds: Vec<Bind>,
}

/// A statement with its texts as sequences.
pub struct StatementView {
    pub query: Seq<char>,
    pub binds: Seq<BindView>,
}

/// The views of bound values.
pub open spec fn bind_views(binds: Seq<Bind>) -> Seq<BindView> {
    binds.map_values(|b: Bind| b@)
}

impl View for Statement {
    type V = StatementView;

    open spec fn view(&self) -> StatementView {
        StatementView { query: self.query@, binds: bind_views(self.binds@) }
    }
}

/// Why a statement gave no result.
#[derive(Debug)]
pub enum DatabaseError {
    /// The database refused this query; the text of its error.
    Query { query: String, source: String },
    /// What came back cannot be.
    Internal { message: String },
}

/// An error with its texts as sequences.
pub enum DatabaseErrorView {
    Query { query: Seq<char>, source: Seq<char> },
    Internal { message: Seq<char> },
}

impl View for DatabaseError {
    type V = DatabaseErrorView;

    open spec fn view(&self) -> DatabaseErrorView {
        match self {
            DatabaseError::Query { query, source } => DatabaseErrorView::Query {
                query: query@,
                source: source@,
            },
            DatabaseError::Internal { message } => DatabaseErrorView::Internal {
                message: message@,
            },
        }
    }
}

/// The result of a database operation.
pub type DatabaseResult<T> = Result<T, DatabaseError>;

impl Statement {
    /// The error of this statement where the database refused it.
    pub fn failed(&self, source: String) -> (r: DatabaseError)
        ensures
            r@ == (DatabaseErrorView::Query { query: self@.query, source: source@ }),
    {
        DatabaseError::Query { query: self.query.clone(), source }
    }
}

/// The version that a record is at, and the version that follows it, by
/// their texts.
pub struct ConfigVersion {
    pub current: String,
    pub next: String,
}

/// The statement of a query with three values.
pub(crate) fn statement3(query: &str, first: Bind, second: Bind, third: Bind) -> (r: Statement)
    ensures
        r@ == (StatementView { query: query@, binds: seq![first@, second@, third@] }),
{
    let mut binds: Vec<Bind> = Vec::new();
    binds.push(first);
    binds.push(second);
    binds.push(third);
    assert(bind_views(binds@) =~= seq![first@, second@, third@]);
    Statement { query: query.to_owned(), binds }
}

/// A statement is seen with its query and every value bound to it, in order.
pub proof fn law_statement_is_seen_in_full(statement: Statement, i: int)
    requires
        0 <= i < statement.binds.len(),
    ensures
        statement@.query == statement.query@,
        statement@.binds.len() == statement.binds.len(),
        statement@.binds[i] == statement.binds[i]@,
{
}

/// A bound value is seen as the value it is.
pub proof fn law_bound_values_are_seen(id: u128, text: String, n: i32, big: i64)
    ensures
        Bind::Uuid(id)@ == BindView::Uuid(id),
        Bind::Text(text)@ == BindView::Text(text@),
        Bind::Json(text)@ == BindView::Json(text@),
        Bind::Integer(n)@ == BindView::Integer(n),
        Bind::BigInt(big)@ == BindView::BigInt(big),
        Bind::NullableText(Some(text))@ == BindView::NullableText(Some(text@)),
        Bind::NullableText(None)@ == BindView::NullableText(None),
        Bind::NullableInteger(Some(n))@ == BindView::NullableInteger(Some(n)),
        Bind::NullableInteger(None)@ == BindView::NullableInteger(None),
        (DatabaseError::Query { query: text, source: text })@ == (DatabaseErrorView::Query {
            query: text@,
            source: text@,
        }),
        (DatabaseError::Internal { message: text })@ == (DatabaseErrorView::Internal {
            message: text@,
        }),
{
}

} // verus!
