[package]
name = "qrtool"
version = "0.1.0"
edition = "2021"
publish = false

[dependencies]
anyhow = "=1.0.104"
clap = { version = "=4.6.7", features = ["derive"] }
clap_complete = "=4.6.11"
csscolorparser = "=0.6.2"
image = "=0.24.9"
qrencode = "=0.14.0"
rqrr = { version = "=0.11.0", default-features = false }
