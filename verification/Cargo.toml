[package]
name = "automa"
version = "0.1.0"
edition = "2021"
publish = false

[dependencies]
zip = { version = "=8.6.0", default-features = false, features = ["deflate"] }
url = "=2.5.8"
clap = { version = "=4.6.7", features = ["derive"] }
either = "=1.19.0"
octocrab = "=0.53.1"
reqwest = { version = "=0.12.28", default-features = false, features = ["rustls-tls"] }
secrecy = "=0.10.3"
tokio = { version = "=1.53.2", features = ["macros", "rt-multi-thread", "time"] }
