[package]
name = "kizuna"
version = "0.1.0"
edition = "2021"
publish = false

[dependencies]
rand = "=0.8.8"
sha2 = "=0.10.9"
zeroize = "=1.9.1"
hex = "=0.4.3"
serde = { version = "=1.0.229", features = ["derive"] }
serde_json = "=1.0.154"
uuid = { version = "=1.29.0", features = ["v4"] }
thiserror = "=1.0.69"
ed25519-dalek = { version = "=2.2.0", features = ["rand_core"] }
chacha20poly1305 = "0.10"
x25519-dalek = "2"
hmac = "0.12"
tokio = { version = "1", features = ["sync", "rt", "macros", "time"] }
async-trait = "0.1"
dirs = "5"
whoami = "1"
rusqlite = { version = "*", features = ["bundled"] }
keyring = "*"
winapi = { version = "0.3", features = ["winreg", "winnt", "processthreadsapi", "winbase", "jobapi2", "combaseapi", "objbase", "winsock2", "sysinfoapi", "iphlpapi", "iptypes", "minwindef", "winerror"] }
