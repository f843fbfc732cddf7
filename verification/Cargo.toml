[package]
name = "rev"
version = "0.1.0"
edition = "2021"
publish = false

[dependencies]
anyhow = "1"
async-trait = "0.1"
chrono = "=0.4.45"
clap = { version = "=4.6.7", features = ["derive"] }
crossterm = { version = "=0.27.0", features = ["event-stream"] }
directories = "=5.0.1"
dotenv = "=0.15.0"
futures = "0.3"
human-panic = "=1.2.3"
kdl = "=4.7.1"
portable-pty = "=0.8.1"
ratatui = "=0.24.0"
reqwest = { version = "=0.11.27", default-features = false, features = ["json"] }
serde_json = "1"
thiserror = "1"
timeago = "=0.4.2"
tokio = { version = "=1.53.2", features = ["full"] }
tokio-util = "=0.7.19"
tracing = "0.1"
tracing-error = "=0.2.1"
tracing-subscriber = { version = "=0.3.23", features = ["env-filter"] }
tui-term = "=0.1.13"
vt100 = "=0.15.2"
which = "=5.0.0"
