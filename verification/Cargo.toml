[package]
name = "manga_ocr"
version = "0.1.0"
edition = "2021"
publish = false

[dependencies]
image = "=0.25.10"
tokenizers = { version = "=0.23.2", default-features = false, features = ["onig"] }
ort = { version = "=2.0.0-rc.10", default-features = false, features = ["std", "ndarray", "load-dynamic"] }
ndarray = "=0.16.1"
arboard = "=3.7.0"
hf-hub = { version = "=0.5.0", default-features = false, features = ["ureq"] }
clap = { version = "=4.6.7", features = ["derive"] }
serde = { version = "1", features = ["derive"] }
serde_json = "=1.0.154"
anyhow = "=1.0.104"
thiserror = "2"
candle-core = "=0.11.0"
candle-onnx = "=0.11.0"
prost = "=0.14.4"
