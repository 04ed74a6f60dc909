[package]
name = "shiromana"
version = "0.1.0"
edition = "2021"
publish = false

[dependencies]
md-5 = "0.10"
sha1 = "0.10"
sha2 = "0.10"
blake3 = "1"
uuid = { version = "0.8", features = ["v4"] }
image = { version = "0.23", default-features = false, features = ["gif", "jpeg", "ico", "png", "tiff", "webp", "bmp"] }
semver = "1"
rusqlite = { version = "*", features = ["bundled", "blob"] }
r2d2 = "0.8"
r2d2_sqlite = "*"
serde = { version = "1", features = ["derive"] }
serde_json = "1"
chrono = "0.4"
threadpool = "1"
num_cpus = "1"
textwrap = "*"
libloading = "*"

[dev-dependencies]
regex = "1"
