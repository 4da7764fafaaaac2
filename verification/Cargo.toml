[package]
name = "image_folder_viewer"
version = "0.1.0"
edition = "2021"
publish = false

[dependencies]
base64 = "0.22"
chrono = "0.4"
image = { version = "0.25", default-features = false, features = ["jpeg", "png", "gif", "webp", "bmp"] }
serde = { version = "1", features = ["derive"] }
serde_json = "1"
sha2 = "0.10"
