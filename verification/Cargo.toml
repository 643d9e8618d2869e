[package]
name = "mediastore"
version = "0.1.0"
edition = "2021"
publish = false

[dependencies]
uuid = { version = "*", features = ["v4"] }
chrono = "*"
rusqlite = "*"
r2d2 = "*"
r2d2_sqlite = "*"
actix-web = "*"
serde = { version = "*", features = ["derive"] }
serde_json = "*"
bytes = "*"
futures-core = "*"
md5 = "*"
rand = "0.8"
log = "*"
env_logger = "*"
colored = "*"
once_cell = "*"
either = "*"
image = "*"
