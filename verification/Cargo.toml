[package]
name = "webcrawler"
version = "0.1.0"
edition = "2021"
publish = false

[dependencies]
url = "2"
scraper = "*"
reqwest = { version = "*", default-features = false, features = ["blocking"] }
redis = "*"
rayon = "*"
dotenv = "*"
serde = { version = "*", features = ["derive"] }
serde_json = "*"

[dev-dependencies]
hyper = "*"
