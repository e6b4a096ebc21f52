[package]
name = "package_dispatch"
version = "0.1.0"
edition = "2021"
publish = false

[dependencies]
actix-web = { version = "4", default-features = false, features = ["macros"] }
actix-cors = "0.7"
serde = { version = "1", features = ["derive"] }
