[package]
name = "currency_rates"
version = "0.1.0"
edition = "2021"
publish = false

[dependencies]
actix-web = "*"
actix-cors = "*"
confy = "*"
curl = "*"
serde = { version = "*", features = ["derive"] }
serde_json = "*"
