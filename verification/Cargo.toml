[package]
name = "teart"
version = "0.1.0"
edition = "2021"
publish = false

[dependencies]
chrono = "0.4"
confy = "*"
image = "0.24"
rscolorq = "*"
serde = { version = "1", features = ["derive"] }
serde_derive = "1"
