[package]
name = "blip_caption"
version = "0.1.0"
edition = "2021"
publish = false

[dependencies]
candle-core = "*"
candle-nn = "*"
candle-transformers = "*"
image = { version = "*", default-features = false, features = ["png", "jpeg", "gif", "bmp"] }
tokenizers = { version = "*", default-features = false, features = ["onig"] }
