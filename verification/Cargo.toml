[package]
name = "minihttp"
version = "0.1.0"
edition = "2021"
publish = false

[dependencies]
bytes = "1"
httparse = "1"
may = "0.3"
memchr = "2"
