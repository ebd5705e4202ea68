[package]
name = "brain"
version = "0.1.0"
edition = "2021"
publish = false

[dependencies]
anyhow = "=1.0.104"
async-stream = "=0.3.6"
async-trait = "=0.1.92"
futures = "=0.3.34"
jiff = "=0.2.39"
minijinja = "=2.24.0"
ratatui = { version = "=0.30.2", default-features = false, features = ["crossterm"] }
reqwest = { version = "=0.13.5", default-features = false, features = ["json", "stream"] }
serde = { version = "=1.0.229", features = ["derive"] }
serde_json = { version = "=1.0.154", features = ["raw_value"] }
surrealdb = { version = "=3.3.5", default-features = false, features = ["protocol-ws"] }
surrealdb-types = { version = "=3.3.5", default-features = false }
tokio = { version = "=1.54.1", features = ["macros", "rt-multi-thread", "sync"] }
tracing = "=0.1.44"
tracing-appender = "=0.2.5"
tracing-subscriber = { version = "=0.3.23", features = ["env-filter"] }
tui-markdown = { version = "=0.3.13", default-features = false }
uuid = { version = "=1.29.0", features = ["v4", "v7"] }
