[package]
name = "nonogram_fetcher"
version = "0.1.0"
edition = "2021"
publish = false

[dependencies]
ureq = "=2.12.1"
scraper = "=0.29.0"
serde = { version = "=1.0.229", features = ["derive"] }
serde_json = "=1.0.154"
libc = "=0.2.191"
printpdf = { version = "=0.7.0", features = ["embedded_images"] }
image = "=0.24.9"
