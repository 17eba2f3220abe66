[package]
name = "rusty_bench"
version = "0.1.0"
edition = "2021"
publish = false

[dependencies]
anyhow = "*"
crossbeam = "*"
serde = { version = "*", features = ["derive"] }
serde_json = "*"
sha1 = "*"
symphonia = "*"
toniefile = "*"
