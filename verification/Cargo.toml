[package]
name = "pq_ldk_sample"
version = "0.1.0"
edition = "2021"
publish = false

[dependencies]
base64 = "0.13"
bitcoin = "=0.32.102"
bitcoin-bech32 = "=0.13.0"
libc = "=0.2.191"
lightning = "=0.2.7"
lightning-background-processor = "=0.2.3"
lightning-block-sync = { version = "=0.2.0", features = ["rpc-client", "tokio"] }
lightning-dns-resolver = "=0.3.1"
lightning-invoice = "=0.34.1"
lightning-net-tokio = "=0.2.0"
lightning-persister = { version = "=0.2.3", features = ["tokio"] }
rand = "=0.4.6"
serde_json = "1"
tokio = { version = "=1.54.1", features = ["io-util", "macros", "rt", "rt-multi-thread", "sync", "net", "time", "io-std"] }
