[package]
name = "pindash_news"
version = "0.1.0"
edition = "2021"
publish = false

[dependencies]
anyhow = "=1.0.104"
eframe = { version = "=0.21.3", default-features = false, features = ["default_fonts", "glow"] }
feed-rs = "=1.5.3"
once_cell = "=1.21.4"
open = "=3.2.0"
pulldown-cmark = { version = "=0.9.6", default-features = false }
r2d2 = "=0.8.10"
r2d2_sqlite = "=0.31.0"
reqwest = { version = "=0.11.27", default-features = false, features = ["rustls-tls", "gzip", "deflate", "brotli"] }
rusqlite = { version = "=0.37.0", features = ["bundled"] }
rusqlite_migration = "=2.3.0"
scraper = { version = "=0.14.0", default-features = false }
tokio = { version = "=1.54.1", features = ["rt", "sync"] }
tracing = "=0.1.44"
tracing-subscriber = { version = "=0.3.23", default-features = false, features = ["fmt"] }
url = "=2.5.8"
