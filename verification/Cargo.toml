[package]
name = "qpack"
version = "0.1.0"
edition = "2021"
publish = false

[dependencies]
memchr = "2"
thiserror = "2"
http = "1"
futures-lite = "2"
event-listener = "5"
log = "0.4"
