[package]
name = "strand"
version = "0.1.0"
edition = "2021"
publish = false

[dependencies]
anyhow = "1"
async-std = { version = "1", features = ["attributes"] }
colored = "*"
dirs = "*"
flate2 = "1"
pbr = "1"
serde = { version = "1", features = ["derive"] }
serde_yaml = "*"
shrinkwraprs = "*"
structopt = "0.3"
surf = "2"
tar = "0.4"
thiserror = "*"
url = { version = "2", features = ["serde"] }
