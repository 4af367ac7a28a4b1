[package]
name = "graftfs"
version = "0.4.1"
edition = "2021"
publish = false

[dependencies]
grep = { version = "=0.4.1", features = ["pcre2"] }
tracing = "=0.1.44"
tracing-subscriber = { version = "=0.3.23", features = ["json"] }
tracing-appender = "=0.2.5"
clap = { version = "=4.6.7", features = ["derive"] }
clap_complete = "=4.6.11"
clap_complete_nushell = "=4.6.2"
crossterm = { version = "=0.29.0", features = ["serde"] }
serde = { version = "=1.0.229", features = ["derive"] }
toml = "=1.2.1"
supports-color = "=3.0.2"
