[package]
name = "dotsync"
version = "0.1.0"
edition = "2021"
publish = false

[dependencies]
clap = { version = "*", features = ["cargo"] }
git2 = "*"
globset = "=0.4.20"
path_abs = "=0.5.1"
shellexpand = "=3.1.2"
similar = { version = "=3.2.0", features = ["inline"] }
toml = "*"
serde = { version = "*", features = ["derive"] }
