[package]
name = "wordgame"
version = "0.1.0"
edition = "2021"
publish = false

[dependencies]
rand = "*"
axum = { version = "*", features = ["ws"] }
tokio = { version = "*", features = ["rt-multi-thread", "macros", "net"] }
