[package]
name = "dearrow_browser"
version = "0.1.0"
edition = "2021"
publish = false

[dependencies]
csv = "=1.4.0"
sha2 = "=0.11.0"
alea-js = "=0.1.1"
serde = { version = "*", features = ["derive"] }
chrono = "*"
toml = "*"
base64 = "*"
getrandom = "*"
anyhow = "*"
actix-web = "=4.15.0"
actix-files = "*"
