[package]
name = "rtthost"
version = "0.1.0"
edition = "2021"
publish = false

[dependencies]
unicode-width = "=0.2.2"
probe-rs = "=0.14.2"
probe-rs-rtt = "=0.14.2"
termion = "=1.5.6"
tui = { version = "=0.19.0", default-features = false, features = ["termion"] }
structopt = "=0.3.26"
pretty_env_logger = "=0.5.0"
