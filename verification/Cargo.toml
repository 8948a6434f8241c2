[package]
name = "just_convert"
version = "0.1.0"
edition = "2021"
publish = false

[dependencies]
url = "=2.5.8"
image = { version = "=0.25.10", default-features = false, features = ["png", "jpeg"] }
serde = { version = "=1.0.229", features = ["derive"] }
serde_json = "=1.0.154"
rusqlite = { version = "=0.41.1", features = ["bundled"] }
printpdf = { version = "=0.12.8", default-features = false, features = ["png", "jpeg", "webp", "tiff"] }
pdfium-render = "=0.9.5"
trash = "=5.2.9"
winreg = "=0.56.0"
