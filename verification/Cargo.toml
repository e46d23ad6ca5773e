[package]
name = "mdrust"
version = "0.1.0"
edition = "2021"
publish = false

[dependencies]
zip = { version = "2", default-features = false, features = ["deflate"] }
quick-xml = "0.37"
csv = "1"
regex = "1"
htmd = "*"
comrak = { version = "*", default-features = false }
pulldown-cmark = { version = "*", default-features = false }
docx-rs = "*"
serde = { version = "1", features = ["derive"] }
serde_json = "1"
anyhow = "1"
async-trait = "0.1"
tokio = { version = "1", features = ["rt-multi-thread", "macros", "fs", "sync"] }
futures-util = "0.3"
clap = { version = "4", features = ["derive"] }
colored = "*"
indicatif = "*"
walkdir = "2"
dirs = "*"
open = "*"
tracing = "0.1"
tracing-subscriber = "0.3"
umya-spreadsheet = "*"
lopdf = "*"
pdf-extract = "*"
reqwest = { version = "*", default-features = false, features = ["blocking", "rustls-tls"] }
