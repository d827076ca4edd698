[package]
name = "trustedge-core"
version = "0.1.0"
edition = "2021"
publish = false

[dependencies]
aead = "=0.5.2"
aes-gcm = "=0.10.3"
anyhow = "=1.0.104"
async-trait = "0.1"
base64 = "=0.22.1"
bincode = "=1.3.3"
blake3 = "=1.8.7"
chacha20poly1305 = "=0.10.1"
chrono = "=0.4.45"
ed25519-dalek = { version = "=2.2.0", features = ["rand_core"] }
hex = "=0.4.3"
hkdf = "=0.12.4"
p256 = { version = "=0.13.2", features = ["ecdh", "ecdsa"] }
pbkdf2 = "=0.12.2"
quinn = { version = "0.11", default-features = false, features = ["runtime-tokio", "rustls-ring"] }
rand = "=0.8.8"
rand_core = { version = "=0.6.4", features = ["getrandom"] }
rsa = "=0.9.10"
rustls = { version = "0.23", default-features = false, features = ["ring", "std", "tls12"] }
serde = { version = "=1.0.229", features = ["derive"] }
serde_json = "=1.0.154"
sha2 = "=0.10.9"
thiserror = "=1.0.69"
tokio = { version = "=1.54.1", features = ["net", "io-util", "rt-multi-thread", "macros", "fs", "time"] }
webpki-roots = "0.26"
x25519-dalek = { version = "=2.0.1", features = ["static_secrets"] }
zeroize = "=1.9.1"
