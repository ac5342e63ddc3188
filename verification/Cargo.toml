[package]
name = "image_splitter"
version = "0.1.0"
edition = "2021"
publish = false

[dependencies]
anyhow = "=1.0.104"
base64 = "=0.22.1"
bytes = "=1.12.1"
image = "=0.25.10"
kovi = "=0.13.5"
kovi-onebot = "=0.13.2"
kovi-plugin-expand-napcat = "=0.5.0"
reqwest = { version = "=0.12.28", default-features = false, features = ["rustls-tls"] }

[dev-dependencies]
regex = "=1.13.1"
