[package]
name = "ab-av1"
version = "0.11.4"
edition = "2021"
publish = false

[dependencies]
anyhow = "=1.0.104"
async-stream = "=0.3.6"
blake3 = "=1.8.7"
clap = { version = "=4.6.7", features = ["derive", "env"] }
clap_complete = "=4.6.11"
clap-verbosity-flag = "=3.0.4"
console = "=0.15.11"
crc32fast = "=1.5.4"
dirs = "=7.0.0"
env_logger = "=0.11.11"
fastrand = "=2.5.0"
ffprobe = "=0.4.0"
futures-util = { version = "=0.3.34", features = ["sink"] }
humantime = "=2.4.0"
indicatif = "=0.17.11"
infer = "=0.22.0"
log = "=0.4.35"
nix = { version = "=0.31.3", features = ["signal", "process"] }
same-file = "=1.0.6"
serde = { version = "=1.0.229", features = ["derive"] }
serde_json = "=1.0.154"
shell-escape = "=0.1.5"
sled = "=0.34.7"
sysinfo = "=0.30.13"
thiserror = "=2.0.21"
tokio = { version = "=1.54.1", features = ["rt-multi-thread", "macros", "process", "fs", "signal", "time", "net", "io-util", "sync"] }
tokio-process-tools = "=0.11.3"
tokio-stream = "=0.1.19"
tokio-tungstenite = "=0.24.0"
ureq = "=2.12.1"
