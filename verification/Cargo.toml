[package]
name = "cookie_run_kingdom_wiki_scraper"
version = "0.1.0"
edition = "2021"
publish = false

[dependencies]
scraper = "*"
regex = "*"
reqwest = { version = "*", default-features = false, features = ["rustls-tls"] }
tokio = { version = "*", features = ["macros", "rt-multi-thread"] }
serde = { version = "*", features = ["derive"] }
serde_json = "*"
ts-rs = "*"
