[package]
name = "wicked2nm"
version = "0.1.0"
edition = "2021"
publish = false

[dependencies]
anyhow = "1"
cidr = "=0.3.2"
clap = { version = "4", features = ["derive", "env"] }
dotenv = "0.15"
globset = "=0.4.20"
log = "0.4"
macaddr = "=1.0.1"
nix = { version = "0.29", features = ["net"] }
quick-xml = { version = "0.37", features = ["serialize"] }
regex = "1"
serde = { version = "1", features = ["derive"] }
serde_ignored = "0.1"
serde_json = "1"
serde_with = "3"
serde_yaml = "0.9"
simplelog = "0.12"
strum = "0.27"
strum_macros = "0.27"
thiserror = "2"
tokio = { version = "1", features = ["macros", "rt-multi-thread", "sync"] }
uuid = { version = "=1.29.0", features = ["v4"] }
