[package]
name = "tmux_status"
version = "0.1.0"
edition = "2021"
publish = false

[dependencies]
git2 = { version = "*", default-features = false }
libgit2-sys = "*"
clap = { version = "*", features = ["derive"] }
duct = "*"
serde = { version = "*", features = ["derive"] }
toml = "*"
regex = "*"
