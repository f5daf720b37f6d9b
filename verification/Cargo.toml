[package]
name = "frameos"
version = "0.1.0"
edition = "2021"
publish = false

[dependencies]
ab_glyph = "=0.2.32"
base64 = "=0.22.1"
chrono = "=0.4.45"
chrono-tz = "=0.10.4"
ctrlc = "=3.5.2"
image = { version = "=0.25.10", default-features = false, features = ["png"] }
imageproc = { version = "=0.27.0", default-features = false, features = ["text"] }
qrcode = { version = "=0.14.1", default-features = false, features = ["image"] }
reqwest = { version = "=0.13.5", default-features = false, features = ["blocking"] }
serde = { version = "=1.0.229", features = ["derive"] }
serde_json = "=1.0.154"
sha1 = "=0.10.7"
xmltree = "=0.12.0"
