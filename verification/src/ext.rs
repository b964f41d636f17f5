//! Trusted declarations and wrappers: the few places where the library calls
//! std functions that vstd gives no specification, or the storage engine and
//! its connection pool. Everything else in the crate is verified against the
//! contracts stated here.

use r2d2_sqlite::rusqlite;
use vstd::utf8::{decode_utf8, valid_utf8};
use r2d2_sqlite::SqliteConnectionManager;
use vstd::prelude::*;

verus! {

/// The pool's error: raised when no connection could be had in time, or when
/// the pool could not be set up.
#[verifier::external_type_specification]
#[verifier::external_body]
pub struct ExPoolError(r2d2::Error);

/// The storage engine's error, carrying its diagnostic.
#[verifier::external_type_specification]
#[verifier::external_body]
pub struct ExSqliteError(rusqlite::Error);

/// The bounded pool of SQLite connections that every request borrows from.
/// It holds an `r2d2::Pool` over the SQLite connection manager; the pool's
/// own generic declaration is refused here, so the whole handle is opaque and
/// is reached only through the wrappers below.
#[verifier::external_body]
pub struct DbPool {
    inner: r2d2::Pool<SqliteConnectionManager>,
}

/// One SQLite connection on loan from the pool, for the holder's exclusive
/// use; it goes back to the pool when it is dropped, on every exit path.
#[verifier::external_body]
pub struct DbConn {
    inner: r2d2::PooledConnection<SqliteConnectionManager>,
}

/// Relies on `SqliteConnectionManager::file` and `r2d2::Pool::builder`: it
/// opens a pool of at most `max_conns` connections to the store at `path`,
/// and reports the pool's initialization error as its text. The builder
/// refuses a bound of zero by panicking, so that bound is required away.
#[verifier::external_body]
pub(crate) fn pool_open_file(path: &str, max_conns: u32) -> (r: Result<DbPool, String>)
    requires
        max_conns >= 1,
{
    let manager = SqliteConnectionManager::file(path);
    match r2d2::Pool::builder().max_size(max_conns).build(manager) {
        Ok(inner) => Ok(DbPool { inner }),
        Err(e) => Err(e.to_string()),
    }
}

/// Relies on `SqliteConnectionManager::memory` and `r2d2::Pool::builder`, as
/// `pool_open_file` does, for a store that lives only in memory.
#[verifier::external_body]
pub(crate) fn pool_open_memory(max_conns: u32) -> (r: Result<DbPool, String>)
    requires
        max_conns >= 1,
{
    let manager = SqliteConnectionManager::memory();
    match r2d2::Pool::builder().max_size(max_conns).build(manager) {
        Ok(inner) => Ok(DbPool { inner }),
        Err(e) => Err(e.to_string()),
    }
}

/// Relies on `r2d2::Pool::get`: it hands out a connection for this caller's
/// exclusive use, waiting at most the pool's configured timeout before
/// failing with the pool's error; it never blocks forever.
#[verifier::external_body]
pub fn pool_get(pool: &DbPool) -> (r: Result<DbConn, r2d2::Error>) {
    match pool.inner.get() {
        Ok(inner) => Ok(DbConn { inner }),
        Err(e) => Err(e),
    }
}

/// Relies on `rusqlite::Connection::execute_batch`, reached through the
/// pooled connection: it runs the statements of the schema batch in order and
/// stops at the engine's first error, which it reports.
#[verifier::external_body]
pub(crate) fn exec_schema(conn: &DbConn, sql: &str) -> (r: Result<(), rusqlite::Error>)
    requires
        sql@ == crate::service::schema_sql(),
{
    conn.inner.execute_batch(sql)
}

/// Relies on `rusqlite::Connection::execute`: it binds the three given values
/// to the placeholders `?1`, `?2`, `?3` in that order and returns, on
/// success, the number of rows the statement changed; the statement this
/// wrapper requires inserts exactly one row. The two numeric values are
/// required to be whole JSON number literals and are bound as text, which
/// the engine's column affinity therefore stores as REAL in the temperature
/// and humidity columns.
#[verifier::external_body]
pub(crate) fn exec_insert_reading(
    conn: &DbConn,
    sql: &str,
    sensor: &str,
    temp: &str,
    humidity: &str,
) -> (r: Result<usize, rusqlite::Error>)
    requires
        sql@ == crate::service::reading_insert_sql(),
        crate::json::is_number_text(temp@),
        crate::json::is_number_text(humidity@),
    ensures
        r is Ok ==> r->Ok_0 == 1,
{
    conn.inner.execute(sql, (sensor, temp, humidity))
}

/// Relies on `rusqlite::Connection::execute`, as `exec_insert_reading` does:
/// the statement this wrapper requires inserts exactly one log row, with the
/// two given values bound to `?1` and `?2` in that order.
#[verifier::external_body]
pub(crate) fn exec_insert_log(conn: &DbConn, sql: &str, sensor: &str, message: &str) -> (r: Result<
    usize,
    rusqlite::Error,
>)
    requires
        sql@ == crate::service::log_insert_sql(),
    ensures
        r is Ok ==> r->Ok_0 == 1,
{
    conn.inner.execute(sql, (sensor, message))
}

/// Relies on the `Display` of `rusqlite::Error` through `ToString`: it reads
/// the engine's diagnostic text.
#[verifier::external_body]
pub(crate) fn sqlite_error_text(e: &rusqlite::Error) -> String {
    e.to_string()
}

/// Relies on the `Display` of `r2d2::Error` through `ToString`: it reads the
/// pool's diagnostic text.
#[verifier::external_body]
pub(crate) fn pool_error_text(e: &r2d2::Error) -> String {
    e.to_string()
}

/// Relies on `std::str::from_utf8`: it succeeds exactly on valid UTF-8
/// input, and the characters of the returned slice are the UTF-8 decoding of
/// the bytes — the same relation vstd states of `str::from_utf8_unchecked`
/// through `spec_bytes` and the encode/decode round trip.
#[verifier::external_body]
pub(crate) fn body_to_str(b: &[u8]) -> (r: Option<&str>)
    ensures
        r is Some <==> valid_utf8(b@),
        r is Some ==> r->0@ == decode_utf8(b@),
{
    std::str::from_utf8(b).ok()
}

/// Relies on `char::from_u32`: a Unicode scalar value — outside the
/// surrogate range and at most 0x10FFFF — always has a character, and the
/// returned character has exactly that value.
#[verifier::external_body]
pub(crate) fn char_from_scalar(v: u32) -> (c: char)
    requires
        v < 0xD800 || (0xE000 <= v && v <= 0x10FFFF),
    ensures
        c as u32 == v,
{
    char::from_u32(v).unwrap()
}

/// Relies on `String::push`: it appends exactly the given character.
#[verifier::external_body]
pub(crate) fn push_char(s: &mut String, c: char)
    ensures
        final(s)@ == old(s)@.push(c),
{
    s.push(c);
}

} // verus!
