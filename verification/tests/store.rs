use r2d2_sqlite::rusqlite::Connection;
use sensor_ingest::ext::{pool_get, DbPool};
use sensor_ingest::service::{dispatch, init_tables, open_store, open_store_memory, post_log, post_temp};

/// Opens (and empties) the store used by one test, so that a rerun starts
/// from nothing, and returns its path.
fn fresh_db(name: &str) -> String {
    let path = format!("/tmp/sensor_ingest_{}.db", name);
    let conn = Connection::open(&path).unwrap();
    conn.execute_batch("DROP TABLE IF EXISTS temperature; DROP TABLE IF EXISTS logs;")
        .unwrap();
    path
}

fn open_pool(path: &str, size: u32) -> DbPool {
    open_store(path, size).unwrap()
}

fn count(path: &str, table: &str) -> i64 {
    let conn = Connection::open(path).unwrap();
    conn.query_row(&format!("SELECT COUNT(*) FROM {}", table), (), |r| r.get(0))
        .unwrap()
}

#[test]
fn reading_row_matches_payload_fields() {
    let path = fresh_db("reading_row");
    let pool = open_pool(&path, 1);
    let r = post_temp(&pool, b"{\"temp\": 21.5, \"humidity\": 40.25, \"sensor\": \"alpha\"}");
    assert_eq!(r.status, 200);
    assert_eq!(r.body, "");
    assert_eq!(count(&path, "temperature"), 1);
    // The binding order is part of the contract: temperature gets the temp
    // field and humidity the humidity field, not the other way round.
    let conn = Connection::open(&path).unwrap();
    let (sensor, temperature, humidity, time): (String, f64, f64, String) = conn
        .query_row("SELECT sensor, temperature, humidity, time FROM temperature", (), |row| {
            Ok((row.get(0)?, row.get(1)?, row.get(2)?, row.get(3)?))
        })
        .unwrap();
    assert_eq!(sensor, "alpha");
    assert_eq!(temperature, 21.5);
    assert_eq!(humidity, 40.25);
    assert!(!time.is_empty());
}

#[test]
fn reading_times_are_monotone() {
    let path = fresh_db("reading_times");
    let pool = open_pool(&path, 1);
    assert_eq!(post_temp(&pool, b"{\"temp\":1,\"humidity\":2,\"sensor\":\"a\"}").status, 200);
    assert_eq!(post_temp(&pool, b"{\"temp\":3,\"humidity\":4,\"sensor\":\"b\"}").status, 200);
    let conn = Connection::open(&path).unwrap();
    let mut stmt = conn.prepare("SELECT time FROM temperature ORDER BY rowid").unwrap();
    let times: Vec<String> = stmt
        .query_map((), |row| row.get(0))
        .unwrap()
        .map(|t| t.unwrap())
        .collect();
    assert_eq!(times.len(), 2);
    assert!(!times[0].is_empty());
    assert!(!times[1].is_empty());
    assert!(times[0] <= times[1]);
}

#[test]
fn log_row_matches_payload_fields() {
    let path = fresh_db("log_row");
    let pool = open_pool(&path, 1);
    let r = post_log(&pool, b"{\"message\": \"over temperature\", \"sensor\": \"beta\"}");
    assert_eq!(r.status, 200);
    assert_eq!(count(&path, "logs"), 1);
    let conn = Connection::open(&path).unwrap();
    let (sensor, message, time): (String, String, String) = conn
        .query_row("SELECT sensor, message, time FROM logs", (), |row| {
            Ok((row.get(0)?, row.get(1)?, row.get(2)?))
        })
        .unwrap();
    assert_eq!(sensor, "beta");
    assert_eq!(message, "over temperature");
    assert!(!time.is_empty());
}

#[test]
fn oversized_body_adds_no_row() {
    let path = fresh_db("oversized");
    let pool = open_pool(&path, 1);
    let body = vec![b' '; 16385];
    let r = post_temp(&pool, &body);
    assert!(r.status < 200 || r.status >= 300);
    assert_eq!(r.status, 413);
    let r = post_log(&pool, &body);
    assert_eq!(r.status, 413);
    assert_eq!(count(&path, "temperature"), 0);
    assert_eq!(count(&path, "logs"), 0);
}

#[test]
fn missing_field_adds_no_row() {
    let path = fresh_db("missing_field");
    let pool = open_pool(&path, 1);
    let r = post_temp(&pool, b"{\"sensor\":\"a\"}");
    assert!(r.status < 200 || r.status >= 300);
    assert_eq!(r.status, 400);
    assert!(r.body.starts_with("{\"message\":\""));
    assert!(r.body.len() > "{\"message\":\"\"}".len());
    let r = post_log(&pool, b"{\"message\":\"m\"}");
    assert_eq!(r.status, 400);
    assert_eq!(count(&path, "temperature"), 0);
    assert_eq!(count(&path, "logs"), 0);
}

#[test]
fn schema_init_is_idempotent() {
    let path = fresh_db("idempotent");
    let pool = open_pool(&path, 1);
    assert_eq!(post_temp(&pool, b"{\"temp\":1,\"humidity\":2,\"sensor\":\"a\"}").status, 200);
    // A second initialization must succeed and leave the data alone.
    let conn = pool_get(&pool).unwrap();
    init_tables(&conn).unwrap();
    drop(conn);
    assert_eq!(count(&path, "temperature"), 1);
    let conn = Connection::open(&path).unwrap();
    let tables: i64 = conn
        .query_row(
            "SELECT COUNT(*) FROM sqlite_master WHERE type = 'table' AND name IN ('temperature', 'logs')",
            (),
            |r| r.get(0),
        )
        .unwrap();
    assert_eq!(tables, 2);
    // Both tables still answer for all their declared columns.
    conn.prepare("SELECT sensor, temperature, humidity, time FROM temperature").unwrap();
    conn.prepare("SELECT sensor, message, time FROM logs").unwrap();
}

#[test]
fn restart_preserves_rows() {
    let path = fresh_db("restart");
    {
        let pool = open_pool(&path, 1);
        assert_eq!(post_temp(&pool, b"{\"temp\":1,\"humidity\":2,\"sensor\":\"a\"}").status, 200);
        assert_eq!(post_log(&pool, b"{\"message\":\"m\",\"sensor\":\"a\"}").status, 200);
    }
    // A new pool against the same store stands for a restarted service.
    let pool = open_pool(&path, 1);
    assert_eq!(count(&path, "temperature"), 1);
    assert_eq!(count(&path, "logs"), 1);
    assert_eq!(post_temp(&pool, b"{\"temp\":3,\"humidity\":4,\"sensor\":\"b\"}").status, 200);
    assert_eq!(count(&path, "temperature"), 2);
}

#[test]
fn n_requests_make_n_rows() {
    let path = fresh_db("n_requests");
    // More requests than the pool has connections; none may be lost.
    let pool = open_pool(&path, 1);
    let bodies = [
        &b"{\"temp\":1,\"humidity\":0,\"sensor\":\"s1\"}"[..],
        b"{\"temp\":2,\"humidity\":0,\"sensor\":\"s2\"}",
        b"{\"temp\":3,\"humidity\":0,\"sensor\":\"s3\"}",
        b"{\"temp\":4,\"humidity\":0,\"sensor\":\"s4\"}",
    ];
    for body in bodies {
        assert_eq!(post_temp(&pool, body).status, 200);
    }
    assert_eq!(count(&path, "temperature"), 4);
    let conn = Connection::open(&path).unwrap();
    let distinct: i64 = conn
        .query_row("SELECT COUNT(DISTINCT sensor) FROM temperature", (), |r| r.get(0))
        .unwrap();
    assert_eq!(distinct, 4);
}

#[test]
fn storage_failure_maps_to_server_error() {
    let path = fresh_db("storage_failure");
    let pool = open_pool(&path, 1);
    let conn = Connection::open(&path).unwrap();
    conn.execute_batch("DROP TABLE temperature;").unwrap();
    let r = post_temp(&pool, b"{\"temp\":1,\"humidity\":2,\"sensor\":\"a\"}");
    assert_eq!(r.status, 500);
    assert!(r.body.starts_with("{\"message\":\""));
    assert!(r.body.ends_with("\"}"));
    assert!(r.body.len() > "{\"message\":\"\"}".len());
    // The log endpoint is untouched by the temperature table's failure.
    assert_eq!(post_log(&pool, b"{\"message\":\"m\",\"sensor\":\"a\"}").status, 200);
}

#[test]
fn dispatch_routes_and_falls_through() {
    let path = fresh_db("dispatch");
    let pool = open_pool(&path, 1);
    let r = dispatch(&pool, "POST", "/temperature", b"{\"temp\":1,\"humidity\":2,\"sensor\":\"a\"}")
        .unwrap();
    assert_eq!(r.status, 200);
    let r = dispatch(&pool, "POST", "/log", b"{\"message\":\"m\",\"sensor\":\"a\"}").unwrap();
    assert_eq!(r.status, 200);
    assert!(dispatch(&pool, "GET", "/temperature", b"{}").is_none());
    assert!(dispatch(&pool, "POST", "/elsewhere", b"{}").is_none());
    assert_eq!(count(&path, "temperature"), 1);
    assert_eq!(count(&path, "logs"), 1);
}

#[test]
fn memory_store_accepts_requests() {
    let pool = open_store_memory(2).unwrap();
    assert_eq!(post_temp(&pool, b"{\"temp\":1,\"humidity\":2,\"sensor\":\"a\"}").status, 200);
    assert_eq!(post_log(&pool, b"{\"message\":\"m\",\"sensor\":\"a\"}").status, 200);
    // Initializing the schema again against the live store must not error.
    let conn = pool_get(&pool).unwrap();
    init_tables(&conn).unwrap();
}
