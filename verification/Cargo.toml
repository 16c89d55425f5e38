[package]
name = "veloren_logic"
version = "0.1.0"
edition = "2021"
publish = false

[dependencies]
hashbrown = "=0.9.1"
num_cpus = "1"
serde = { version = "=1.0.229", features = ["derive"] }
tokio = { version = "=1.54.1", features = ["sync"] }
vek = "=0.14.1"
