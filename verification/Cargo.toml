[package]
name = "flom"
version = "0.1.0"
edition = "2021"
publish = false

[dependencies]
url = "*"
reqwest = { version = "*", default-features = false, features = ["json", "rustls-tls"] }
serde = { version = "*", features = ["derive"] }
tokio = { version = "*", features = ["macros", "rt-multi-thread"] }
clap = { version = "*", features = ["derive"] }
console = "*"
dialoguer = "*"
dirs = "*"
thiserror = "*"
toml = "*"
toml_edit = "*"
