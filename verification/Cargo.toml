[package]
name = "theatre_listings"
version = "0.1.0"
edition = "2021"
publish = false

[dependencies]
select = "*"
reqwest = { version = "*", features = ["blocking"] }
serde = { version = "*", features = ["derive"] }
serde_json = "*"
