[package]
name = "remotecmd"
version = "0.1.0"
edition = "2021"
publish = false

[dependencies]
mail-parser = "=0.9.4"
clap = { version = "=4.6.7", features = ["derive"] }
tokio = { version = "=1.53.2", features = ["full"] }
lettre = { version = "=0.10.4", features = ["tokio1", "tokio1-native-tls"] }
async-imap = { version = "=0.6.0", default-features = false, features = ["runtime-tokio"] }
async-native-tls = { version = "=0.4.0", default-features = false, features = ["runtime-tokio"] }
async-trait = "=0.1.92"
futures-util = "=0.3.34"
matrix-sdk = { version = "=0.6.2", default-features = false, features = ["native-tls", "markdown"] }
mime = "=0.3.17"
serde = { version = "=1.0.229", features = ["derive"] }
toml = "=0.7.8"
log = "=0.4.34"
pretty_env_logger = "=0.5.0"
thiserror = "=1.0.69"
crossbeam = "=0.8.5"
execute = "=0.2.15"
