[package]
name = "api"
version = "0.1.0"
edition = "2021"
publish = false

[dependencies]
actix-web = "3"
async-graphql = "2"
async-graphql-actix-web = "2"
dotenv = "0.15"
mongodb = "1"
serde = { version = "1", features = ["derive"] }
tokio = { version = "0.2", features = ["stream", "macros", "rt-threaded"] }
