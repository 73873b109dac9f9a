//! The SQLite boundary: statements are handed parameters of the library's
//! own `SqlParam` type and give back rows of `SqlValue`s. What a statement
//! does depends on the database on disk, so the items that run statements
//! claim nothing of their outcome; the callers decode what comes back with
//! verified functions.

use vstd::prelude::*;

use rusqlite::types::{Value, ValueRef};
use rusqlite::{Connection, Row, Rows, Statement};

use crate::text::push_char;

verus! {

#[verifier::external_type_specification]
#[verifier::external_body]
pub struct ExConnection(Connection);

#[verifier::external_type_specification]
#[verifier::external_body]
pub struct ExSqlError(rusqlite::Error);

#[verifier::external_type_specification]
#[verifier::external_body]
pub struct ExSqlValue(Value);

#[verifier::external_type_specification]
#[verifier::external_body]
pub struct ExStatement<'conn>(Statement<'conn>);

#[verifier::external_type_specification]
#[verifier::external_body]
pub struct ExRows<'stmt>(Rows<'stmt>);

#[verifier::external_type_specification]
#[verifier::external_body]
pub struct ExRow<'stmt>(Row<'stmt>);

/// A parameter bound to a statement.
#[derive(Clone, Debug)]
pub enum SqlParam {
    Integer(i64),
    Text(String),
}

/// What a parameter stands for: an integer, or the characters of a text.
pub enum SqlParamView {
    Integer(i64),
    Text(Seq<char>),
}

impl View for SqlParam {
    type V = SqlParamView;

    open spec fn view(&self) -> SqlParamView {
        match self {
            SqlParam::Integer(i) => SqlParamView::Integer(*i),
            SqlParam::Text(s) => SqlParamView::Text(s@),
        }
    }
}

/// A value read from a column. A floating-point value is only recorded as
/// such, and text that is not UTF-8 as `InvalidText`.
#[derive(Debug)]
pub enum SqlValue {
    Null,
    Integer(i64),
    Real,
    Text(String),
    InvalidText,
    Blob(Vec<u8>),
}

/// Errors of the database layer.
#[derive(Debug)]
pub enum DbError {
    /// SQLite or rusqlite reported an error.
    Sql(rusqlite::Error),
    /// A column is missing from a row or holds a value of the wrong type.
    Column { index: usize },
    /// A query that must return a row returned none.
    NoRows,
    /// More rows than a `usize` can count.
    TooManyRows,
}

pub const COLUMN_ERROR_PREFIX: &'static str = "Invalid column value at index: ";

pub const NO_ROWS_MESSAGE: &'static str = "Query returned no rows";

pub const TOO_MANY_ROWS_MESSAGE: &'static str = "Query returned too many rows";

/// The decimal digit `d`.
pub open spec fn digit_char(d: nat) -> char {
    (48 + d) as char
}

/// `n` written in decimal, without leading zeros.
pub open spec fn spec_decimal(n: nat) -> Seq<char>
    decreases n,
{
    if n < 10 {
        seq![digit_char(n)]
    } else {
        spec_decimal(n / 10).push(digit_char(n % 10))
    }
}

fn digit(d: usize) -> (c: char)
    requires
        d < 10,
    ensures
        c == digit_char(d as nat),
{
    match d {
        0 => '0',
        1 => '1',
        2 => '2',
        3 => '3',
        4 => '4',
        5 => '5',
        6 => '6',
        7 => '7',
        8 => '8',
        _ => '9',
    }
}

/// Appends `n` written in decimal.
pub fn push_decimal(s: &mut String, n: usize)
    ensures
        final(s)@ == old(s)@ + spec_decimal(n as nat),
    decreases n,
{
    if n >= 10 {
        push_decimal(s, n / 10);
    }
    push_char(s, digit(n % 10));
    assert(s@ =~= old(s)@ + spec_decimal(n as nat));
}

impl DbError {
    /// The error as a message for the user: rusqlite's own message for an
    /// error it reported, a fixed sentence for the others.
    pub fn message(&self) -> (m: String)
        ensures
            self matches DbError::Column { index } ==> m@ == COLUMN_ERROR_PREFIX@ + spec_decimal(index as nat),
            self is NoRows ==> m@ == NO_ROWS_MESSAGE@,
            self is TooManyRows ==> m@ == TOO_MANY_ROWS_MESSAGE@,
    {
        match self {
            DbError::Sql(e) => sql_error_message(e),
            DbError::Column { index } => {
                let mut m = String::from_str(COLUMN_ERROR_PREFIX);
                push_decimal(&mut m, *index);
                m
            },
            DbError::NoRows => String::from_str(NO_ROWS_MESSAGE),
            DbError::TooManyRows => String::from_str(TOO_MANY_ROWS_MESSAGE),
        }
    }
}

/// Converts a parameter into rusqlite's value, variant for variant.
#[verifier::external_body]
fn sql_value(p: &SqlParam) -> Value {
    match p {
        SqlParam::Integer(i) => Value::Integer(*i),
        SqlParam::Text(s) => Value::Text(s.clone()),
    }
}

/// Wraps `Connection::execute`: runs one statement with its parameters and
/// returns the number of rows it changed. The outcome depends on the
/// database, so nothing is claimed of it.
#[verifier::external_body]
fn sql_execute(conn: &Connection, sql: &str, params: Vec<Value>) -> Result<usize, rusqlite::Error> {
    conn.execute(sql, rusqlite::params_from_iter(params))
}

/// Wraps `Connection::execute_batch`: runs statements without parameters.
#[verifier::external_body]
fn sql_execute_batch(conn: &Connection, sql: &str) -> Result<(), rusqlite::Error> {
    conn.execute_batch(sql)
}

/// Wraps `Connection::prepare`.
#[verifier::external_body]
fn sql_prepare<'c>(conn: &'c Connection, sql: &str) -> Result<Statement<'c>, rusqlite::Error> {
    conn.prepare(sql)
}

/// Wraps `Statement::column_count`.
#[verifier::external_body]
fn sql_column_count(stmt: &Statement) -> usize {
    stmt.column_count()
}

/// Wraps `Statement::query`, binding the parameters in order.
#[verifier::external_body]
fn sql_query<'s, 'c>(stmt: &'s mut Statement<'c>, params: Vec<Value>) -> Result<Rows<'s>, rusqlite::Error> {
    stmt.query(rusqlite::params_from_iter(params))
}

/// Wraps `Rows::next`: the next row, or `None` after the last.
#[verifier::external_body]
fn sql_next_row<'r, 's>(rows: &'r mut Rows<'s>) -> Result<Option<&'r Row<'s>>, rusqlite::Error> {
    rows.next()
}

/// Wraps `Row::get_ref`, converting the borrowed value variant for variant
/// (text through `std::str::from_utf8`).
#[verifier::external_body]
fn sql_row_value(row: &Row, index: usize) -> Result<SqlValue, rusqlite::Error> {
    Ok(match row.get_ref(index)? {
        ValueRef::Null => SqlValue::Null,
        ValueRef::Integer(i) => SqlValue::Integer(i),
        ValueRef::Real(_) => SqlValue::Real,
        ValueRef::Text(t) => match std::str::from_utf8(t) {
            Ok(s) => SqlValue::Text(s.to_string()),
            Err(_) => SqlValue::InvalidText,
        },
        ValueRef::Blob(b) => SqlValue::Blob(b.to_vec()),
    })
}

/// Wraps `<rusqlite::Error as Display>::fmt` through `to_string`.
#[verifier::external_body]
pub(crate) fn sql_error_message(e: &rusqlite::Error) -> String {
    e.to_string()
}

fn sql_values(params: &Vec<SqlParam>) -> (r: Vec<Value>)
    ensures
        r.len() == params.len(),
{
    let mut r: Vec<Value> = Vec::new();
    let mut i: usize = 0;
    while i < params.len()
        invariant
            i <= params.len(),
            r.len() == i,
        decreases params.len() - i,
    {
        r.push(sql_value(&params[i]));
        i = i + 1;
    }
    r
}

/// Runs one statement with the given parameters; on success, the number of
/// rows it changed.
pub fn execute(conn: &Connection, sql: &str, params: &Vec<SqlParam>) -> (r: Result<usize, DbError>)
    ensures
        r is Err ==> r->Err_0 is Sql,
{
    match sql_execute(conn, sql, sql_values(params)) {
        Ok(n) => Ok(n),
        Err(e) => Err(DbError::Sql(e)),
    }
}

/// Runs a batch of statements without parameters.
pub fn execute_batch(conn: &Connection, sql: &str) -> (r: Result<(), DbError>)
    ensures
        r is Err ==> r->Err_0 is Sql,
{
    match sql_execute_batch(conn, sql) {
        Ok(()) => Ok(()),
        Err(e) => Err(DbError::Sql(e)),
    }
}

/// Runs a query and collects every row, each with as many values as the
/// statement has columns.
pub fn fetch_rows(conn: &Connection, sql: &str, params: &Vec<SqlParam>) -> (r: Result<
    Vec<Vec<SqlValue>>,
    DbError,
>)
    ensures
        r matches Err(e) ==> e is Sql || e is TooManyRows,
        r matches Ok(rows) ==> forall|i: int, j: int|
            0 <= i < j < rows.len() ==> (#[trigger] rows@[i]).len() == (#[trigger] rows@[j]).len(),
{
    let values = sql_values(params);
    let mut stmt = match sql_prepare(conn, sql) {
        Ok(s) => s,
        Err(e) => return Err(DbError::Sql(e)),
    };
    let ncols = sql_column_count(&stmt);
    let mut rows = match sql_query(&mut stmt, values) {
        Ok(r) => r,
        Err(e) => return Err(DbError::Sql(e)),
    };
    let mut out: Vec<Vec<SqlValue>> = Vec::new();
    loop
        invariant
            forall|i: int| 0 <= i < out.len() ==> (#[trigger] out@[i]).len() == ncols,
        decreases usize::MAX - out.len(),
    {
        if out.len() == usize::MAX {
            return Err(DbError::TooManyRows);
        }
        match sql_next_row(&mut rows) {
            Err(e) => return Err(DbError::Sql(e)),
            Ok(None) => break,
            Ok(Some(row)) => {
                let mut values: Vec<SqlValue> = Vec::new();
                let mut k: usize = 0;
                while k < ncols
                    invariant
                        k <= ncols,
                        values.len() == k,
                    decreases ncols - k,
                {
                    match sql_row_value(row, k) {
                        Ok(v) => values.push(v),
                        Err(e) => return Err(DbError::Sql(e)),
                    }
                    k = k + 1;
                }
                out.push(values);
            },
        }
    }
    Ok(out)
}

} // verus!
