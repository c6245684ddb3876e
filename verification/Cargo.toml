[package]
name = "statsd_sink"
version = "0.1.0"
edition = "2021"
publish = false

[dependencies]
http = "*"
