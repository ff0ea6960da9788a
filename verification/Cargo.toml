[package]
name = "handlr-regex"
version = "0.1.0"
edition = "2021"
publish = false

[dependencies]
mime = "0.3"
lazy-regex = "3"
url = "2"
freedesktop_entry_parser = "1"
mime-db = "1"
xdg = "2"
clap = { version = "4", features = ["derive"] }
clap_mangen = "0.2"
confy = "0.6"
serde = { version = "1", features = ["derive"] }
serde_json = "1"
tabled = "0.15"
execute = "0.2"
notify-rust = "4"
thiserror = "1"
tracing = "0.1"
tracing-appender = "0.2"
tracing-subscriber = "0.3"
