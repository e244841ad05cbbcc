[package]
name = "giglog_devtools"
version = "0.1.0"
edition = "2021"
publish = false

[dependencies]
anyhow = "=1.0.104"
ansi-to-tui = "=8.0.1"
axum = "=0.8.9"
chrono = "=0.4.45"
clap = { version = "=4.6.7", features = ["derive"] }
crossterm = "=0.29.0"
dialoguer = "=0.12.0"
dotenvy = "=0.15.7"
http = "=1.5.0"
libc = "=0.2.191"
notify = "=8.2.1"
rand = "=0.9.5"
ratatui = { version = "=0.30.2", features = ["unstable-rendered-line-info"] }
serde = { version = "=1.0.229", features = ["derive"] }
serde_json = "=1.0.154"
sqlx = { version = "=0.8.6", default-features = false, features = ["runtime-tokio", "postgres", "json", "uuid", "chrono"] }
tempfile = "=3.27.0"
tokio = { version = "=1.54.1", features = ["full"] }
toml = "=1.2.1"
tui-realm-stdlib = "=4.1.0"
tuirealm = "=4.1.0"
