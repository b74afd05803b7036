[package]
name = "bounded_planet"
version = "0.1.0"
edition = "2021"
publish = false

[dependencies]
uuid = { version = "*", features = ["v4"] }
tokio = { version = "*", features = ["rt-multi-thread", "sync", "macros", "time"] }
quinn = { version = "*", default-features = false, features = ["rustls-ring", "runtime-tokio", "log"] }
rustls = { version = "*", default-features = false, features = ["ring", "std", "logging", "tls12"] }
