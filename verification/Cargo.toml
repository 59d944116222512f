[package]
name = "nervemq"
version = "0.1.0"
edition = "2021"
publish = false

[dependencies]
md5 = "0.7"
hex = "0.4"
sha2 = "0.10"
hmac = "0.12"
aws-sigv4 = "1"
urlencoding = "2"
aes-gcm-siv = "0.11"
actix-web = { version = "4", default-features = false, features = ["macros", "cookies"] }
nervemq-actix-session = "0.10.2"
nervemq-actix-identity = "0.8.1"
actix-cors = "0.7"
sqlx = { version = "0.8", default-features = false, features = ["sqlite", "runtime-tokio", "macros", "migrate"] }
tokio = { version = "1", features = ["full"] }
serde = { version = "1", features = ["derive"] }
serde_json = "1"
clap = { version = "4", features = ["derive"] }
eyre = "0.6"
rand = "0.8"
url = { version = "2", features = ["serde"] }
secrecy = { version = "0.10", features = ["serde"] }
envy = "0.4"
serde-email = "3"
futures-util = "0.3"
anyhow = "1"
base64 = "0.22"
rpassword = "7"
argon2 = "0.5"
