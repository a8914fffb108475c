[package]
name = "xodus"
version = "0.1.0"
edition = "2021"
publish = false

[dependencies]
aes = "=0.9.4"
base64 = "=0.23.1"
bergshamra = "=0.11.1"
bergshamra-c14n = "=0.11.1"
cbc = { version = "=0.2.1", features = ["alloc", "block-padding"] }
chrono = "=0.4.45"
ctrlc = "=3.5.2"
env_logger = "=0.11.11"
fs2 = "=0.4.3"
futures-util = "=0.3.34"
hmac = "=0.13.0"
indicatif = "=0.18.6"
inquire = "=0.9.4"
log = "=0.4.35"
nix = { version = "=0.31.3", features = ["signal"] }
quick-xml = { version = "=0.39.4", features = ["serialize"] }
reqwest = { version = "=0.13.5", default-features = false, features = ["stream"] }
rsa = "=0.9.10"
rustix = { version = "=1.1.6", features = ["fs"] }
serde = { version = "=1.0.229", features = ["derive"] }
serde_json = "=1.0.154"
sha2 = "=0.11.1"
tempfile = "=3.27.0"
thiserror = "=2.0.21"
tokio = { version = "=1.54.1", features = ["fs", "io-util", "macros", "net", "process", "rt-multi-thread", "signal", "sync"] }
tokio-util = "=0.7.20"
uuid = { version = "=1.29.0", features = ["v4"] }
zerocopy = "=0.8.63"
