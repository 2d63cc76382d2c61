[package]
name = "wjj_std"
version = "0.1.0"
edition = "2021"
publish = false

[dependencies]
minijinja = { version = "2", features = ["loader"] }
lru = "*"
serde_json = "1"
serde = { version = "1", features = ["derive"] }
parking_lot = "*"
once_cell = "*"
linkme = "*"
ctor = "*"
tokio = { version = "1", features = ["rt-multi-thread", "macros", "signal", "sync", "time"] }
async-trait = "*"
anyhow = "1"
log = "0.4"
syn = { version = "2", features = ["full"] }
quote = "1"
proc-macro2 = "1"
