[package]
name = "vita"
version = "0.1.0"
edition = "2021"
publish = false

[dependencies]
async-std = "1"
dotenv = "0.15"
futures = "0.3"
serde = { version = "1", features = ["derive"] }
surf = { version = "2", default-features = false, features = ["h1-client-rustls"] }
