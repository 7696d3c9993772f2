[package]
name = "rsheet"
version = "0.1.0"
edition = "2021"
publish = false

[dependencies]
rustc_apfloat = "=0.2.3"
tokio = { version = "=1.53.2", features = ["rt-multi-thread", "macros"] }

[dev-dependencies]
futures = { version = "=0.3.34", features = ["executor", "thread-pool"] }
