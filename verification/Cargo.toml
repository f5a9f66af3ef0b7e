[package]
name = "ts3-query"
version = "5.1.0"
edition = "2021"
publish = false

[dependencies]
snafu = "0.6"
