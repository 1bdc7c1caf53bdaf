[package]
name = "sanzu"
version = "0.2.1"
edition = "2021"
publish = false

[dependencies]
aes = "0.8"
anyhow = "1"
cbc = "0.1"
hidapi = { version = "2", default-features = false, features = ["linux-native-basic-udev"] }
hmac = "0.12"
libc = "0.2"
memmap2 = "0.9"
notify-rust = { version = "4", features = ["images"] }
p256 = { version = "0.13", features = ["ecdh"] }
rand_core = { version = "0.6", features = ["getrandom"] }
rpassword = "7"
rustls = "0.21"
serde_cbor = "0.11"
sha2 = "0.10"
uhid-virt = "0.0.8"
vsock = "0.3"
zeroize = "1"
