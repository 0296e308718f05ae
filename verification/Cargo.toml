[package]
name = "escpresso"
version = "0.1.0"
edition = "2021"
publish = false

[dependencies]
anyhow = "1"
codepage-437 = "0.1"
eframe = { version = "0.29", default-features = false, features = ["default_fonts", "glow", "x11"] }
encoding_rs = "0.8"
qrcode = { version = "0.14", default-features = false }
tokio = { version = "1", features = ["io-util", "net", "rt-multi-thread"] }
