[package]
name = "jackal"
version = "0.1.0"
edition = "2021"
publish = false

[dependencies]
chrono = "0.4"
chrono-tz = "*"
rrule = "*"
uuid = { version = "1", features = ["v4"] }
ical = "*"
notify = "*"
log = "0.4"
flexi_logger = "*"
structopt = "0.3"
notify-rust = "*"
linkify = "*"
