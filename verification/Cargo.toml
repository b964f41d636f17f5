[package]
name = "sensor_ingest"
version = "0.1.0"
edition = "2021"
publish = false

[dependencies]
r2d2 = "=0.8.10"
r2d2_sqlite = { version = "=0.35.0", features = ["bundled"] }
tokio = { version = "=1.53.2", features = ["macros", "rt-multi-thread"] }
warp = { version = "=0.4.3", features = ["server"] }
