[package]
name = "asc-sync"
version = "0.1.0"
edition = "2021"
publish = false

[dependencies]
age = "=0.11.5"
anyhow = "=1.0.104"
axum = "=0.8.9"
base64 = "=0.22.1"
clap = { version = "=4.6.7", features = ["derive"] }
dotenvy = "=0.15.7"
glob = "=0.3.4"
image = { version = "=0.25.10", default-features = false, features = ["png", "jpeg", "webp"] }
json5 = "=1.3.7"
jsonwebtoken = { version = "=10.4.0", features = ["rust_crypto", "use_pem"] }
md-5 = "=0.10.6"
plist = "=1.10.3"
qrcode = { version = "=0.14.1", default-features = false }
rand = "=0.10.3"
reqwest = { version = "=0.12.28", default-features = false, features = ["blocking", "json", "rustls-tls"] }
rpassword = "=7.5.4"
serde = { version = "=1.0.229", features = ["derive"] }
serde_json = "=1.0.154"
tar = { version = "=0.4.46", default-features = false }
tempfile = "=3.27.0"
time = { version = "=0.3.55", features = ["parsing", "formatting"] }
tokio = { version = "=1.54.1", features = ["rt-multi-thread", "net", "macros", "sync", "signal"] }
tungstenite = "=0.28.0"
