[package]
name = "prm"
version = "0.1.0"
edition = "2021"
publish = false

[dependencies]
chrono = "0.4"
strfmt = "0.2"
strum = "0.25"
strum_macros = "0.25"
rusqlite = { version = "0.29", features = ["bundled"] }
snafu = "0.7"
clap = { version = "4", features = ["derive"] }
exitcode = "1"
ics = "0.5"
uuid = { version = "1", features = ["v4"] }
edit = "0.1"
