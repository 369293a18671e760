[package]
name = "softtoken"
version = "0.1.0"
edition = "2021"
publish = false

[dependencies]
rusqlite = { version = "*", features = ["bundled"] }
uuid = { version = "*", features = ["v4"] }
zeroize = "*"
aes = "*"
getrandom = "*"
