[package]
name = "ant_colony"
version = "0.1.0"
edition = "2021"
publish = false

[dependencies]
anyhow = "1"
clap = { version = "4", features = ["derive"] }
derive_more = { version = "*", features = ["display"] }
fastrand = "2"
serde = { version = "1", features = ["derive"] }
serde_json = "1"
