[package]
name = "pep"
version = "0.1.0"
edition = "2021"
publish = false

[dependencies]
base64 = "=0.22.1"
getrandom = "=0.3.4"
hex = "=0.4.3"
hmac = "=0.12.1"
regex = "=1.13.1"
sha1 = "=0.10.7"
sha2 = "=0.10.9"
image = { version = "0.25", default-features = false, features = ["png", "jpeg"] }
libloading = "0.8"
lopdf = { version = "0.40", default-features = false }
lsp-server = "0.7"
memmap2 = "0.9"
mysql = { version = "26", default-features = false, features = ["minimal-rust"] }
ndarray = "0.16"
rusqlite = { version = "0.32", features = ["bundled"] }
rustyline = { version = "15", default-features = false }
serde_json = "1"
ureq = { version = "3", default-features = false }
