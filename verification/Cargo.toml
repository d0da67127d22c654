[package]
name = "orbit_core"
version = "0.1.0"
edition = "2021"
publish = false

[dependencies]
sgp4 = "1.2.2"
chrono = "0.4"
serde = { version = "1", features = ["derive"] }
serde_json = "1"
reqwest = { version = "0.12", default-features = false, features = ["blocking", "rustls-tls"] }
nalgebra = "0.33"
