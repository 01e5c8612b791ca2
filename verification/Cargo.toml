[package]
name = "trillium-cli"
version = "0.3.0"
edition = "2021"
publish = false

[dependencies]
ansi-to-html = "=0.2.4"
async-fs = "=2.2.0"
blocking = "=1.7.0"
clap = { version = "=4.6.7", features = ["derive", "env"] }
clap-verbosity-flag = "=3.0.4"
colored = "=3.1.1"
colored_json = "=5.0.0"
env_logger = "=0.11.11"
futures-lite = "=2.6.1"
log = "=0.4.34"
mime = "=0.3.17"
nix = { version = "=0.31.3", features = ["signal"] }
notify = "=8.2.0"
serde_json = "=1.0.154"
signal-hook = "=0.4.5"
size = "=0.6.0"
trillium = "=0.2.20"
trillium-client = "=0.6.2"
trillium-logger = "=0.4.5"
trillium-native-tls = "=0.4.0"
trillium-proxy = "=0.5.6"
trillium-rustls = { version = "=0.8.1", default-features = false, features = ["aws-lc-rs", "client", "server", "tls12"] }
trillium-smol = "=0.4.2"
trillium-static = { version = "=0.4.2", features = ["smol"] }
trillium-websockets = "=0.6.6"
