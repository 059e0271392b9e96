[package]
name = "zenvpush"
version = "0.1.0"
edition = "2021"
publish = false

[dependencies]
base64 = "*"
crypto_box = { version = "*", features = ["seal", "std"] }
clap = { version = "*", features = ["derive"] }
colored = "*"
dotenv = "*"
git2 = "*"
indicatif = "*"
reqwest = { version = "*", default-features = false, features = ["rustls-tls"] }
serde_json = "*"
tokio = { version = "*", features = ["macros", "rt-multi-thread", "time"] }
