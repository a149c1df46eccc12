[package]
name = "fb2s"
version = "0.1.0"
edition = "2021"
publish = false

[dependencies]
base64 = "*"
quick-xml = "*"
chrono = { version = "*", default-features = false, features = ["clock", "std"] }
actix-web = { version = "4", default-features = false, features = ["macros"] }
actix-files = "*"
sqlx = { version = "*", default-features = false, features = ["sqlite", "runtime-tokio"] }
anyhow = "*"
async-trait = "*"
log = "*"
env_logger = { version = "*", default-features = false }
regex = "*"
zip = { version = "2", default-features = false, features = ["deflate"] }
