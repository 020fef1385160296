[package]
name = "omicron"
version = "0.1.0"
edition = "2021"
publish = false

[dependencies]
anyhow = "=1.0.104"
camino = "=1.2.6"
chrono = "=0.4.45"
diesel = { version = "2", default-features = false, features = ["chrono", "postgres_backend", "uuid"] }
dropshot = "=0.12.0"
futures = "=0.3.34"
http = "=0.2.12"
humantime = "=2.4.0"
hyper = { version = "=0.14.32", features = ["server", "http1", "tcp", "runtime"] }
iddqd = "=0.3.18"
indexmap = "=2.14.2"
libc = "=0.2.191"
oso = "=0.27.3"
schemars = "=0.8.22"
serde = { version = "=1.0.229", features = ["derive"] }
serde_json = { version = "=1.0.154", features = ["preserve_order"] }
sha2 = "=0.10.9"
slog = "=2.8.2"
slog-async = "=2.8.0"
slog-dtrace = "0.3"
slog-envlogger = "=2.2.0"
slog-term = "=2.9.2"
steno = "=0.4.1"
tabled = "=0.15.0"
thiserror = "=1.0.69"
tokio = { version = "=1.54.1", features = ["full"] }
uuid = { version = "=1.29.0", features = ["v4"] }
