[package]
name = "tokimo_package_image"
version = "0.1.0"
edition = "2021"
publish = false

[dependencies]
sha2 = "=0.10.9"
hex = "=0.4.3"
chrono = "=0.4.45"
image = { version = "=0.25.10", default-features = false, features = ["jpeg", "png", "webp", "gif", "bmp", "tiff"] }
kamadak-exif = "=0.6.1"
tokio = { version = "=1.54.1", features = ["rt", "sync", "fs"] }
reqwest = { version = "=0.12.28", default-features = false }
bytes = "=1.12.1"
async-trait = "=0.1.92"
tracing = "=0.1.44"
