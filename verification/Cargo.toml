[package]
name = "gh_dir"
version = "0.1.0"
edition = "2021"
publish = false

[dependencies]
url = "=2.5.8"
zip = { version = "=8.6.0", default-features = false }
reqwest = { version = "=0.13.5", default-features = false, features = ["json"] }
tokio = { version = "=1.53.2", features = ["rt-multi-thread", "macros", "fs", "time", "io-util"] }
serde = { version = "=1.0.229", features = ["derive"] }
clap = { version = "=4.6.7", features = ["derive"] }
console = "*"
dialoguer = "*"
indicatif = "*"
anyhow = "*"
thiserror = "*"
futures-util = "*"
