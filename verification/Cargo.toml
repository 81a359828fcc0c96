[package]
name = "diesel_streamer"
version = "0.1.0"
edition = "2021"
publish = false

[dependencies]
diesel = { version = "=2.3.14", features = ["postgres", "chrono"] }
diesel-async = { version = "=0.9.2", features = ["postgres"] }
dotenvy = "=0.15.7"
chrono = "=0.4.45"
futures-util = "=0.3.34"
tokio = { version = "=1.53.2", features = ["sync", "rt"] }
sysinfo = "=0.39.6"
