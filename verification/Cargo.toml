[package]
name = "telewind"
version = "0.1.0"
edition = "2021"
publish = false

[dependencies]
anyhow = "=1.0.104"
chrono = "=0.4.45"
chrono-tz = "=0.10.4"
clap = { version = "=4.6.7", features = ["derive"] }
diesel = { version = "=2.3.14", features = ["sqlite"] }
libsqlite3-sys = { version = "=0.38.2", features = ["bundled"] }
reqwest = { version = "=0.12.28", default-features = false }
select = "=0.6.1"
takecell = "=0.1.1"
teloxide = { version = "=0.12.2", default-features = false, features = ["rustls"] }
tokio = { version = "=1.53.2", features = ["rt-multi-thread", "macros", "time"] }
