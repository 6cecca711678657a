//! The trusted boundary to the SQLite driver. Every function here only
//! moves values between the store's own types and the driver's, and runs
//! one statement; what comes back from the database is never assumed,
//! only handed on to verified code.

use vstd::prelude::*;

use crate::value::DbValue;

verus! {

#[verifier::external_type_specification]
#[verifier::external_body]
pub struct ExConnection(rusqlite::Connection);

#[verifier::external_type_specification]
#[verifier::external_body]
pub struct ExValue(rusqlite::types::Value);

/// One row of the column catalog, as the driver reports it.
pub struct RawColumn {
    /// The column's name.
    pub name: String,
    /// The declared type, as raw text.
    pub decl_type: String,
    /// Whether the column is marked NOT NULL.
    pub notnull: bool,
    /// The declared default, as the catalog stores it.
    pub dflt: DbValue,
    /// Whether the column is part of the primary key.
    pub is_pk: bool,
}

/// Relies on `bytemuck::cast` and the `rusqlite::types::Value`
/// constructors: turns a store value into the equivalent driver value, one
/// variant for one; a real's stored bit pattern becomes the double it
/// encodes.
#[verifier::external_body]
fn to_sql_value(v: &DbValue) -> rusqlite::types::Value {
    match v {
        DbValue::Integer(i) => rusqlite::types::Value::Integer(*i),
        DbValue::Real(b) => rusqlite::types::Value::Real(bytemuck::cast(*b)),
        DbValue::Text(s) => rusqlite::types::Value::Text(s.clone()),
        DbValue::Blob(b) => rusqlite::types::Value::Blob(b.clone()),
        DbValue::Null => rusqlite::types::Value::Null,
    }
}

/// Relies on the double-precision `to_bits`: turns a driver value into the
/// equivalent store value, one variant for one.
#[verifier::external_body]
fn from_sql_value(v: rusqlite::types::Value) -> DbValue {
    match v {
        rusqlite::types::Value::Integer(i) => DbValue::Integer(i),
        rusqlite::types::Value::Real(f) => DbValue::Real(f.to_bits()),
        rusqlite::types::Value::Text(s) => DbValue::Text(s),
        rusqlite::types::Value::Blob(b) => DbValue::Blob(b),
        rusqlite::types::Value::Null => DbValue::Null,
    }
}

/// Relies on `rusqlite::Connection::execute`: runs one parameterized
/// statement; the count of changed rows, or the error, is whatever the
/// database reports.
#[verifier::external_body]
pub(crate) fn db_execute(conn: &rusqlite::Connection, sql: &str, params: &Vec<DbValue>) -> Result<
    usize,
    String,
> {
    let ps: Vec<rusqlite::types::Value> = params.iter().map(to_sql_value).collect();
    conn.execute(sql, rusqlite::params_from_iter(ps.iter())).map_err(|e| e.to_string())
}

/// Relies on `rusqlite::Connection::query_row` and `Row::get`: runs one
/// parameterized single-value query; the number, or the error, is whatever
/// the database reports.
#[verifier::external_body]
pub(crate) fn db_query_i64(conn: &rusqlite::Connection, sql: &str, params: &Vec<DbValue>) -> Result<
    i64,
    String,
> {
    let ps: Vec<rusqlite::types::Value> = params.iter().map(to_sql_value).collect();
    conn.query_row(sql, rusqlite::params_from_iter(ps.iter()), |row| row.get::<usize, i64>(0))
        .map_err(|e| e.to_string())
}

/// Relies on `rusqlite::Connection::prepare` and `Statement::query_map`:
/// runs one parameterized query and hands each row back as column-name /
/// value pairs; the rows are whatever the database holds.
#[verifier::external_body]
pub(crate) fn db_query_rows(conn: &rusqlite::Connection, sql: &str, params: &Vec<DbValue>) -> Result<
    Vec<Vec<(String, DbValue)>>,
    String,
> {
    let ps: Vec<rusqlite::types::Value> = params.iter().map(to_sql_value).collect();
    let go = || -> rusqlite::Result<Vec<Vec<(String, DbValue)>>> {
        let mut stmt = conn.prepare(sql)?;
        let names: Vec<String> = stmt.column_names().iter().map(|s| s.to_string()).collect();
        let rows = stmt.query_map(rusqlite::params_from_iter(ps.iter()), |row| {
            names.iter().enumerate().map(|(i, n)| Ok((n.clone(), from_sql_value(row.get(i)?)))).collect()
        })?;
        rows.collect()
    };
    go().map_err(|e| e.to_string())
}

/// Relies on `rusqlite::Connection::prepare` and `Statement::query_map`:
/// runs one unparameterized query and hands back the first column of each
/// row as text; the names are whatever the database holds.
#[verifier::external_body]
pub(crate) fn db_query_strings(conn: &rusqlite::Connection, sql: &str) -> Result<
    Vec<String>,
    String,
> {
    let go = || -> rusqlite::Result<Vec<String>> {
        let mut stmt = conn.prepare(sql)?;
        let rows = stmt.query_map([], |row| row.get::<usize, String>(0))?;
        rows.collect()
    };
    go().map_err(|e| e.to_string())
}

/// Relies on `rusqlite::Connection::prepare`, `Statement::query_map` and
/// `Row::get`: reads the column catalog rows of one `PRAGMA table_info`
/// query; the columns are whatever the database reports.
#[verifier::external_body]
pub(crate) fn db_table_info(conn: &rusqlite::Connection, sql: &str) -> Result<
    Vec<RawColumn>,
    String,
> {
    let go = || -> rusqlite::Result<Vec<RawColumn>> {
        let mut stmt = conn.prepare(sql)?;
        let rows = stmt.query_map([], |row| {
            Ok(RawColumn {
                name: row.get(1)?,
                decl_type: row.get(2)?,
                notnull: row.get(3)?,
                dflt: from_sql_value(row.get::<usize, rusqlite::types::Value>(4)?),
                is_pk: row.get(5)?,
            })
        })?;
        rows.collect()
    };
    go().map_err(|e| e.to_string())
}

} // verus!
