[package]
name = "miniond"
version = "0.1.0"
edition = "2021"
publish = false

[dependencies]
async-trait = "0.1"
clap = { version = "4", features = ["derive"] }
env_logger = "*"
futures = "0.3"
log = "0.4"
nix = { version = "*", features = ["fs", "user"] }
resolv-conf = "*"
serde = { version = "1", features = ["derive"] }
serde-xml-rs = "*"
snafu = "*"
tokio = { version = "1", features = ["rt-multi-thread", "macros", "net", "io-util", "fs", "process", "signal", "sync"] }
toml = "*"
trust-dns-resolver = "*"
users = "*"
which = "*"
