[package]
name = "mc_rs"
version = "0.1.0"
edition = "2021"
publish = false

[dependencies]
imara-diff = "=0.2.0"
globset = "=0.4.21"
percent-encoding = "=2.3.2"
smallvec = "=1.16.4"
base64 = "=0.22.1"
nix = { version = "=0.29.0", features = ["user"] }
serde = { version = "=1.0.229", features = ["derive"] }
toml = "=0.8.23"
arboard = "=3.7.0"
anyhow = "=1.0.104"
tracing = "=0.1.44"
encoding_rs = "=0.8.44"
regex = "=1.13.1"
quick-xml = "0.38"
