[package]
name = "guildbot"
version = "0.1.0"
edition = "2021"
publish = false

[dependencies]
serenity = { version = "0.10", features = ["voice", "collector"] }
songbird = "0.2"
base64 = "0.13"
bytes = "1"
reqwest = "0.11"
tokio = { version = "1", features = ["full"] }
tracing = "0.1"
tracing-subscriber = "0.2"
dotenv = "0.15"
