[package]
name = "jacox"
version = "0.1.0"
edition = "2021"
publish = false

[dependencies]
serde_json = "*"
uuid = { version = "*", features = ["v4"] }
serde = { version = "*", features = ["derive"] }
actix-web = "*"
actix-ws = "*"
actix-cors = "*"
actix-files = "*"
tokio = { version = "*", features = ["macros", "rt-multi-thread", "sync"] }
reqwest = { version = "*", features = ["json", "stream"] }
futures-util = "*"
async-stream = "*"
async-trait = "*"
chrono = "*"
clap = { version = "*", features = ["derive"] }
dotenv = "*"
scraper = "*"
llm_readability = "*"
html-to-markdown-rs = "*"
qstring = "*"
thiserror = "*"
tracing = "*"
tracing-subscriber = "*"
urlencoding = "*"
bytes = "*"
