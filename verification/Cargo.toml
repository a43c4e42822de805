[package]
name = "order_analytics"
version = "0.1.0"
edition = "2021"
publish = false

[dependencies]
chrono = { version = "0.4", features = ["serde"] }
serde = { version = "1", features = ["derive"] }
thiserror = "1"
lazy_static = "1"
dotenv = "0.15"
reqwest = { version = "0.12", default-features = false, features = ["json"] }
sqlx = { version = "0.8", default-features = false, features = ["runtime-tokio", "postgres", "derive", "chrono"] }
actix-web = { version = "4", default-features = false, features = ["macros"] }
actix-cors = "0.7"
