[package]
name = "grsync"
version = "0.1.0"
edition = "2021"
publish = false

[dependencies]
sha1 = "=0.10.7"
hex = "=0.4.3"
chrono = { version = "=0.4.45", default-features = false, features = ["clock"] }
image = { version = "=0.24.9", default-features = false, features = ["png", "jpeg", "bmp"] }
async-std = "=1.13.2"
dotenv = "=0.15.0"
tide = { version = "=0.16.0", default-features = false, features = ["h1-server"] }
surf = { version = "=2.3.2", default-features = false, features = ["h1-client-rustls"] }
sqlx = { version = "=0.7.4", default-features = false, features = ["mysql", "runtime-async-std"] }
