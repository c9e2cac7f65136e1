[package]
name = "chaperone"
version = "0.1.0"
edition = "2021"
publish = false

[dependencies]
argon2 = "0.5"
bs58 = "0.5"
clap = { version = "4", features = ["derive"] }
data-encoding = "2"
ed25519-dalek = "2"
hkdf = "0.12"
keyring = { version = "3", features = ["linux-native"] }
libp2p = { version = "0.56", features = ["tokio", "quic"] }
prost = "0.13"
rand = "0.8"
ring = "0.17"
serde = { version = "1", features = ["derive"] }
serde_json = "1"
sha2 = "0.10"
sqlx = { version = "0.8", default-features = false, features = ["runtime-tokio", "sqlite"] }
tokio = { version = "1", features = ["macros", "rt-multi-thread", "time"] }
tracing = "0.1"
tracing-appender = "0.2"
tracing-subscriber = { version = "0.3", features = ["json", "env-filter"] }
uuid = { version = "1", features = ["v4"] }
x25519-dalek = { version = "2", features = ["static_secrets"] }
zeroize = "1"
