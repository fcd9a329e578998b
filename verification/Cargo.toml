[package]
name = "modelardb_evaluator"
version = "0.1.0"
edition = "2021"
publish = false

[dependencies]
rustc_apfloat = "=0.2.3"
arrow = "=60.0.0"
arrow-flight = "=60.0.0"
bytes = "=1.12.1"
futures = "=0.3.34"
parquet = { version = "=60.0.0", features = ["arrow"] }
tempfile = "=3.27.0"
tokio = { version = "=1.53.2", features = ["macros", "rt-multi-thread"] }
tonic = "=0.14.6"
