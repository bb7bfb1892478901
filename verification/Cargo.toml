[package]
name = "cranelift"
version = "0.1.0"
edition = "2021"
publish = false

[dependencies]
regalloc = "*"
target-lexicon = "*"
serde = { version = "1", features = ["derive"] }
