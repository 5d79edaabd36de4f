//! The host's catalog storage: the record type it keeps and the schema
//! initialisation of its SQLite database. The catalog is a collaborator of
//! the sync engine's host, reached through the `rusqlite` crate; the engine
//! itself never reads or writes catalog records.

use vstd::prelude::*;

verus! {

/// One catalog record describing a stored media file.
#[derive(Debug, Clone)]
pub struct Memory {
    pub id: String,
    pub title: String,
    pub tags: String,
    pub created_at: String,
    pub media_type: String,
    pub filename: String,
}

/// The SQLite connection type of the `rusqlite` crate, opaque here.
#[verifier::external_type_specification]
#[verifier::external_body]
pub struct ExConnection(rusqlite::Connection);

/// The error type of the `rusqlite` crate, opaque here.
#[verifier::external_type_specification]
#[verifier::external_body]
pub struct ExSqlError(rusqlite::Error);

/// Relies on `rusqlite::Connection::open`: opens the catalog's database file
/// (creating it if absent), or fails with the underlying SQLite error.
#[verifier::external_body]
pub fn get_connection() -> Result<rusqlite::Connection, rusqlite::Error> {
    rusqlite::Connection::open("aethersync.db")
}

/// Relies on `rusqlite::Connection::execute`: runs one parameterless SQL
/// statement, returning how many rows it changed or the underlying error.
#[verifier::external_body]
fn execute_sql(conn: &rusqlite::Connection, sql: &str) -> Result<usize, rusqlite::Error> {
    conn.execute(sql, [])
}

/// Relies on the `Display` implementation of `rusqlite::Error` for the error
/// text handed to the host.
#[verifier::external_body]
fn sql_error_text(e: &rusqlite::Error) -> String {
    e.to_string()
}

/// Creates the catalog's table of memories if it does not exist yet. `Ok`
/// exactly when the database opened and the statement ran; otherwise the
/// underlying error's text.
pub fn init_db() -> Result<(), String> {
    let conn = match get_connection() {
        Ok(c) => c,
        Err(e) => {
            return Err(sql_error_text(&e));
        },
    };
    let created = execute_sql(
        &conn,
        "CREATE TABLE IF NOT EXISTS memories (
            id TEXT PRIMARY KEY,
            title TEXT NOT NULL,
            tags TEXT,
            created_at TEXT NOT NULL,
            media_type TEXT NOT NULL,
            filename TEXT NOT NULL
        )",
    );
    match created {
        Ok(_) => Ok(()),
        Err(e) => Err(sql_error_text(&e)),
    }
}

} // verus!
