[package]
name = "shared"
version = "0.1.0"
edition = "2021"
publish = false

[dependencies]
mime_guess = "2"
axum = "0.8"
tokio = { version = "1", features = ["macros", "rt-multi-thread", "net", "sync"] }
webbrowser = "1"
