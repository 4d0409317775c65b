[package]
name = "tack-it-on"
version = "0.1.0"
edition = "2021"
publish = false

[dependencies]
chrono = "0.4"
clap = "2"
glob = "0.3"
serde = "1"
serde_derive = "1"
serde_json = "1"
subprocess = "0.2"
tempfile = "3"
text_io = "0.1"
toml = "0.5"
