[package]
name = "ical_events"
version = "0.1.0"
edition = "2021"
publish = false

[dependencies]
chrono = "0.4"
chrono-tz = "*"
log = "0.4"
thiserror = "1"
