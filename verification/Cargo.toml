[package]
name = "pcpocket"
version = "0.1.0"
edition = "2021"
publish = false

[dependencies]
serde = { version = "=1.0.229", features = ["derive"] }
serde_json = "=1.0.154"
url = "=2.5.8"
time = "=0.3.55"
log = "=0.4.34"
diesel = { version = "=2.3.14", features = ["sqlite", "r2d2", "returning_clauses_for_sqlite_3_35"] }
notify-rust = "=4.18.2"
config = "0.15"
ctrlc = "3"
diesel_migrations = "2"
log4rs = "1"
mlua = { version = "0.11", features = ["lua54", "vendored"] }
notify = "8"
notify-debouncer-full = "0.6"
pyo3 = "0.28"
