//! The request-handling pipeline: decode and validate a raw body, borrow a
//! connection from the pool, append one row, and map every outcome to the
//! uniform reply. The statements sent to the storage engine are pinned down
//! here as well, so that the binding order of payload fields to table columns
//! is part of what is verified.

use crate::ext::{
    body_to_str, exec_insert_log, exec_insert_reading, exec_schema, pool_error_text, pool_get,
    pool_open_file, pool_open_memory, sqlite_error_text, DbConn, DbPool,
};
use crate::json::{
    is_number_text, lemma_parsed_reading_numbers, parse_log, parse_reading, spec_parse_log,
    spec_parse_reading, str_eq, LogEntry, LogV, Reading, ReadingV,
};
use crate::reply::{
    error_body, error_response, malformed_msg, reply_for_decode, reply_for_insert, too_large_msg,
    DecodeError, Response,
};
use r2d2_sqlite::rusqlite;
use vstd::prelude::*;
use vstd::utf8::{decode_utf8, valid_utf8};

verus! {

/// The largest request body either endpoint accepts, in bytes.
pub const MAX_BODY_BYTES: usize = 16384;

/// The schema batch run once at startup: one transaction that creates each of
/// the two tables if it is absent, so that running it again against an
/// existing store changes nothing.
pub open spec fn schema_sql() -> Seq<char> {
    "BEGIN; CREATE TABLE IF NOT EXISTS temperature (sensor TEXT, temperature REAL, humidity REAL, time TEXT); CREATE TABLE IF NOT EXISTS logs (sensor TEXT, message TEXT, time TEXT); COMMIT;"@
}

/// The one statement that appends a reading row: the placeholders `?1`, `?2`,
/// `?3` stand in the columns sensor, temperature, humidity, in that order,
/// and the time column takes the engine clock's current time.
pub open spec fn reading_insert_sql() -> Seq<char> {
    "INSERT INTO temperature (sensor, temperature, humidity, time) VALUES (?1, ?2, ?3, datetime('now'))"@
}

/// The one statement that appends a log row: `?1` is the sensor column, `?2`
/// the message column.
pub open spec fn log_insert_sql() -> Seq<char> {
    "INSERT INTO logs (sensor, message, time) VALUES (?1, ?2, datetime('now'))"@
}

/// Creates the two tables if absent, inside a single transaction. A failure
/// is the engine's and is fatal to startup: the caller must not begin
/// serving.
pub fn init_tables(conn: &DbConn) -> (r: Result<(), rusqlite::Error>) {
    exec_schema(
        conn,
        "BEGIN; CREATE TABLE IF NOT EXISTS temperature (sensor TEXT, temperature REAL, humidity REAL, time TEXT); CREATE TABLE IF NOT EXISTS logs (sensor TEXT, message TEXT, time TEXT); COMMIT;",
    )
}

/// Opens the pool over the store at `path` and initializes the schema, as
/// startup must before any request is served. Every failure — of the pool's
/// initialization, of borrowing the first connection, of the schema batch —
/// comes back as its diagnostic text and is fatal to startup: a caller must
/// not serve without an `Ok`. The pool's bound is a fixed configured maximum
/// number of live connections, so it is at least one.
pub fn open_store(path: &str, max_conns: u32) -> (r: Result<DbPool, String>)
    requires
        max_conns >= 1,
{
    match pool_open_file(path, max_conns) {
        Err(m) => Err(m),
        Ok(pool) => match pool_get(&pool) {
            Err(e) => Err(pool_error_text(&e)),
            Ok(conn) => match init_tables(&conn) {
                Err(e) => Err(sqlite_error_text(&e)),
                Ok(_) => Ok(pool),
            },
        },
    }
}

/// As `open_store`, over a store that lives only in memory and is shared by
/// the pool's connections for as long as the pool lives.
pub fn open_store_memory(max_conns: u32) -> (r: Result<DbPool, String>)
    requires
        max_conns >= 1,
{
    match pool_open_memory(max_conns) {
        Err(m) => Err(m),
        Ok(pool) => match pool_get(&pool) {
            Err(e) => Err(pool_error_text(&e)),
            Ok(conn) => match init_tables(&conn) {
                Err(e) => Err(sqlite_error_text(&e)),
                Ok(_) => Ok(pool),
            },
        },
    }
}

/// Appends one reading row: the payload's sensor, temperature and humidity
/// are bound to the columns of those names, in the order the pinned statement
/// declares them, and the row's time is assigned by the engine's clock at
/// write time. The two numeric texts must be whole JSON number literals, as
/// every payload the decoder accepts carries. On success the statement
/// changed exactly one row.
pub fn insert_temp(conn: &DbConn, s: &Reading) -> (r: Result<usize, rusqlite::Error>)
    requires
        is_number_text(s.temp@),
        is_number_text(s.humidity@),
    ensures
        r is Ok ==> r->Ok_0 == 1,
{
    exec_insert_reading(
        conn,
        "INSERT INTO temperature (sensor, temperature, humidity, time) VALUES (?1, ?2, ?3, datetime('now'))",
        s.sensor.as_str(),
        s.temp.as_str(),
        s.humidity.as_str(),
    )
}

/// Appends one log row with the payload's sensor and message, timestamped by
/// the engine's clock. On success the statement changed exactly one row.
pub fn insert_log(conn: &DbConn, log: &LogEntry) -> (r: Result<usize, rusqlite::Error>)
    ensures
        r is Ok ==> r->Ok_0 == 1,
{
    exec_insert_log(
        conn,
        "INSERT INTO logs (sensor, message, time) VALUES (?1, ?2, datetime('now'))",
        log.sensor.as_str(),
        log.message.as_str(),
    )
}

/// What decoding a raw temperature body yields: an oversized body is refused
/// before anything is read of it; otherwise the bytes must be UTF-8 and the
/// text must belong to the reading grammar.
pub open spec fn spec_decode_reading(body: Seq<u8>) -> Result<ReadingV, DecodeError> {
    if body.len() > MAX_BODY_BYTES {
        Err(DecodeError::PayloadTooLarge)
    } else if valid_utf8(body) {
        match spec_parse_reading(decode_utf8(body)) {
            Some(rv) => Ok(rv),
            None => Err(DecodeError::MalformedBody),
        }
    } else {
        Err(DecodeError::MalformedBody)
    }
}

/// What decoding a raw log body yields.
pub open spec fn spec_decode_log(body: Seq<u8>) -> Result<LogV, DecodeError> {
    if body.len() > MAX_BODY_BYTES {
        Err(DecodeError::PayloadTooLarge)
    } else if valid_utf8(body) {
        match spec_parse_log(decode_utf8(body)) {
            Some(lv) => Ok(lv),
            None => Err(DecodeError::MalformedBody),
        }
    } else {
        Err(DecodeError::MalformedBody)
    }
}

/// Decodes a raw temperature body, with no side effect.
pub fn decode_reading(body: &[u8]) -> (r: Result<Reading, DecodeError>)
    ensures
        match (spec_decode_reading(body@), r) {
            (Ok(rv), Ok(x)) => x.sensor@ == rv.sensor && x.temp@ == rv.temp && x.humidity@
                == rv.humidity,
            (Err(e0), Err(e1)) => e1 == e0,
            _ => false,
        },
{
    if body.len() > MAX_BODY_BYTES {
        return Err(DecodeError::PayloadTooLarge);
    }
    match body_to_str(body) {
        Some(s) => match parse_reading(s) {
            Some(x) => Ok(x),
            None => Err(DecodeError::MalformedBody),
        },
        None => Err(DecodeError::MalformedBody),
    }
}

/// Decodes a raw log body, with no side effect.
pub fn decode_log(body: &[u8]) -> (r: Result<LogEntry, DecodeError>)
    ensures
        match (spec_decode_log(body@), r) {
            (Ok(lv), Ok(x)) => x.sensor@ == lv.sensor && x.message@ == lv.message,
            (Err(e0), Err(e1)) => e1 == e0,
            _ => false,
        },
{
    if body.len() > MAX_BODY_BYTES {
        return Err(DecodeError::PayloadTooLarge);
    }
    match body_to_str(body) {
        Some(s) => match parse_log(s) {
            Some(x) => Ok(x),
            None => Err(DecodeError::MalformedBody),
        },
        None => Err(DecodeError::MalformedBody),
    }
}

/// The two routes the dispatcher serves.
#[derive(PartialEq, Eq, Structural, Clone, Copy, Debug)]
pub enum Endpoint {
    Temperature,
    Log,
}

/// Which endpoint a method and path select, if any: the method must be POST
/// and the path exactly one of the two endpoints' paths. Anything else is not
/// matched and falls through to the surrounding HTTP layer.
pub open spec fn spec_route(method: Seq<char>, path: Seq<char>) -> Option<Endpoint> {
    if method == "POST"@ && path == "/temperature"@ {
        Some(Endpoint::Temperature)
    } else if method == "POST"@ && path == "/log"@ {
        Some(Endpoint::Log)
    } else {
        None
    }
}

/// Selects the endpoint for a method and path.
pub fn route(method: &str, path: &str) -> (r: Option<Endpoint>)
    ensures
        r == spec_route(method@, path@),
{
    if str_eq(method, "POST") {
        if str_eq(path, "/temperature") {
            Some(Endpoint::Temperature)
        } else if str_eq(path, "/log") {
            Some(Endpoint::Log)
        } else {
            None
        }
    } else {
        None
    }
}

/// Everything a reply to a temperature request must satisfy, given the raw
/// body: each rejection with its pinned status and diagnostic, and for an
/// accepted payload either the empty success reply or a server error carrying
/// some diagnostic in the uniform body shape.
pub open spec fn valid_temp_reply(body: Seq<u8>, r: Response) -> bool {
    match spec_decode_reading(body) {
        Err(DecodeError::PayloadTooLarge) => r.status == 413 && r.body@ == error_body(
            too_large_msg(),
        ),
        Err(DecodeError::MalformedBody) => r.status == 400 && r.body@ == error_body(
            malformed_msg(),
        ),
        Ok(rv) => (r.status == 200 && r.body@ == Seq::<char>::empty()) || (r.status == 500 && (
        exists|m: Seq<char>| r.body@ == error_body(m))),
    }
}

/// Everything a reply to a log request must satisfy, given the raw body.
pub open spec fn valid_log_reply(body: Seq<u8>, r: Response) -> bool {
    match spec_decode_log(body) {
        Err(DecodeError::PayloadTooLarge) => r.status == 413 && r.body@ == error_body(
            too_large_msg(),
        ),
        Err(DecodeError::MalformedBody) => r.status == 400 && r.body@ == error_body(
            malformed_msg(),
        ),
        Ok(lv) => (r.status == 200 && r.body@ == Seq::<char>::empty()) || (r.status == 500 && (
        exists|m: Seq<char>| r.body@ == error_body(m))),
    }
}

/// Handles one POST /temperature body end to end: decode, borrow a
/// connection, append one row, reply. A decode failure is refused before any
/// pool or storage work; an accepted payload is answered 200 with an empty
/// body when the insert succeeded, and 500 with the pool's or the engine's
/// diagnostic otherwise. The borrowed connection goes back to the pool on
/// every path out of this function.
pub fn post_temp(pool: &DbPool, body: &[u8]) -> (r: Response)
    ensures
        valid_temp_reply(body@, r),
{
    match decode_reading(body) {
        Err(e) => reply_for_decode(e),
        Ok(stat) => {
            proof {
                lemma_parsed_reading_numbers(decode_utf8(body@));
            }
            match pool_get(pool) {
                Err(e) => {
                    let m = pool_error_text(&e);
                    let resp = error_response(500, m.as_str());
                    proof {
                        assert(exists|mm: Seq<char>| resp.body@ == error_body(mm)) by {
                            assert(resp.body@ == error_body(m@));
                        }
                    }
                    resp
                },
                Ok(conn) => {
                    let res: Result<usize, String> = match insert_temp(&conn, &stat) {
                        Ok(n) => Ok(n),
                        Err(e) => Err(sqlite_error_text(&e)),
                    };
                    let ghost res0 = res;
                    let resp = reply_for_insert(res);
                    proof {
                        if res0 is Err {
                            assert(exists|mm: Seq<char>| resp.body@ == error_body(mm)) by {
                                assert(resp.body@ == error_body(res0->Err_0@));
                            }
                        }
                    }
                    resp
                },
            }
        },
    }
}

/// Handles one POST /log body end to end, as `post_temp` does for a reading.
pub fn post_log(pool: &DbPool, body: &[u8]) -> (r: Response)
    ensures
        valid_log_reply(body@, r),
{
    match decode_log(body) {
        Err(e) => reply_for_decode(e),
        Ok(log) => {
            match pool_get(pool) {
                Err(e) => {
                    let m = pool_error_text(&e);
                    let resp = error_response(500, m.as_str());
                    proof {
                        assert(exists|mm: Seq<char>| resp.body@ == error_body(mm)) by {
                            assert(resp.body@ == error_body(m@));
                        }
                    }
                    resp
                },
                Ok(conn) => {
                    let res: Result<usize, String> = match insert_log(&conn, &log) {
                        Ok(n) => Ok(n),
                        Err(e) => Err(sqlite_error_text(&e)),
                    };
                    let ghost res0 = res;
                    let resp = reply_for_insert(res);
                    proof {
                        if res0 is Err {
                            assert(exists|mm: Seq<char>| resp.body@ == error_body(mm)) by {
                                assert(resp.body@ == error_body(res0->Err_0@));
                            }
                        }
                    }
                    resp
                },
            }
        },
    }
}

/// What the dispatcher owes for any method, path and body: the matching
/// endpoint's reply, or no reply where no route matches.
pub open spec fn valid_dispatch_reply(
    method: Seq<char>,
    path: Seq<char>,
    body: Seq<u8>,
    r: Option<Response>,
) -> bool {
    match spec_route(method, path) {
        Some(Endpoint::Temperature) => r is Some && valid_temp_reply(body, r->0),
        Some(Endpoint::Log) => r is Some && valid_log_reply(body, r->0),
        None => r is None,
    }
}

/// Routes one request and handles it; `None` where method and path select
/// neither endpoint.
pub fn dispatch(pool: &DbPool, method: &str, path: &str, body: &[u8]) -> (r: Option<Response>)
    ensures
        valid_dispatch_reply(method@, path@, body@, r),
{
    match route(method, path) {
        Some(Endpoint::Temperature) => Some(post_temp(pool, body)),
        Some(Endpoint::Log) => Some(post_log(pool, body)),
        None => None,
    }
}

/// A body larger than the limit is refused by both endpoints with the
/// payload-too-large reply — a client error, never a success — before any
/// pool or storage work is reached.
pub proof fn lemma_oversized_rejected(body: Seq<u8>, rt: Response, rl: Response)
    requires
        body.len() > MAX_BODY_BYTES,
        valid_temp_reply(body, rt),
        valid_log_reply(body, rl),
    ensures
        rt.status == 413 && rt.body@ == error_body(too_large_msg()),
        rl.status == 413 && rl.body@ == error_body(too_large_msg()),
{
}

/// A body within the size limit whose text does not belong to the reading
/// grammar — one missing a required field among them — is refused by the
/// temperature endpoint with status 400 and an error body carrying a
/// non-empty message.
pub proof fn lemma_undecodable_temp_rejected(body: Seq<u8>, r: Response)
    requires
        body.len() <= MAX_BODY_BYTES,
        valid_utf8(body) ==> spec_parse_reading(decode_utf8(body)) is None,
        valid_temp_reply(body, r),
    ensures
        r.status == 400,
        r.body@ == error_body(malformed_msg()),
        malformed_msg().len() > 0,
{
    crate::reply::lemma_reject_msgs_nonempty();
}

/// As `lemma_undecodable_temp_rejected`, for the log endpoint.
pub proof fn lemma_undecodable_log_rejected(body: Seq<u8>, r: Response)
    requires
        body.len() <= MAX_BODY_BYTES,
        valid_utf8(body) ==> spec_parse_log(decode_utf8(body)) is None,
        valid_log_reply(body, r),
    ensures
        r.status == 400,
        r.body@ == error_body(malformed_msg()),
        malformed_msg().len() > 0,
{
    crate::reply::lemma_reject_msgs_nonempty();
}

} // verus!

