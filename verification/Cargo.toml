[package]
name = "async_event_streams"
version = "0.1.0"
edition = "2021"
publish = false

[dependencies]
futures = "=0.3.34"
async-trait = "=0.1.92"
async-std = "=1.13.2"
unicode-ident = "=1.0.27"
