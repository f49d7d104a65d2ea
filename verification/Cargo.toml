[package]
name = "quip"
version = "0.1.0"
edition = "2021"
publish = false

[dependencies]
fxhash = "0.2"
uuid = { version = "1", features = ["v4"] }
futures = "0.3"
once_cell = "1"
tracing = "0.1"
lasso = { version = "0.7", features = ["multi-threaded"] }
async-mutex = "1"
regex = "1"
syn = { version = "2", features = ["full"] }
serde = { version = "1", features = ["derive"] }
serde_json = "1"
reqwest = { version = "0.12", features = ["json"] }
clap = { version = "4", features = ["derive"] }
cliclack = "*"
dialoguer = "0.11"
dotenvy = "0.15"
tokio = { version = "1", features = ["macros", "rt-multi-thread"] }
anyhow = "1"
