[package]
name = "shop_core"
version = "0.1.0"
edition = "2021"
publish = false

[dependencies]
chrono = "*"
actix-web = { version = "*", default-features = false, features = ["macros"] }
actix-cors = "*"
dotenvy = "*"
serde = { version = "*", features = ["derive"] }
serde_json = "*"
sqlx = { version = "*", default-features = false, features = ["runtime-tokio", "mysql", "chrono"] }
