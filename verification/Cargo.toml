[package]
name = "webshell"
version = "0.1.0"
edition = "2021"
publish = false

[dependencies]
rand = "*"
sha2 = "*"
hex = "*"
uuid = { version = "*", features = ["v4"] }
tokio = { version = "*", features = ["rt-multi-thread", "macros", "net", "sync", "time", "io-util"] }
axum = { version = "*", features = ["ws"] }
axum-extra = { version = "*", features = ["cookie"] }
futures = "*"
serde = { version = "*", features = ["derive"] }
serde_json = "*"
tower-http = { version = "*", features = ["fs", "cors"] }
dotenvy = "*"
portable-pty = "*"
russh = "*"
russh-keys = "*"
async-trait = "*"
