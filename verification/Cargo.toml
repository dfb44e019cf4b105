[package]
name = "markov_bot"
version = "0.1.0"
edition = "2021"
publish = false

[dependencies]
base64 = "0.13"
bincode = "1"
dotenv = "0.15"
failure = "0.1"
futures = "0.3"
google-drive3 = "1"
hyper = "0.10"
hyper-rustls = "0.6"
lazy_static = "1"
markov = "1"
retry = "1"
serde = { version = "1", features = ["derive"] }
tbot = "0.5"
tokio = { version = "0.2", features = ["full"] }
yup-oauth2 = "1"
