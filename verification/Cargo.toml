[package]
name = "cosmos"
version = "0.1.0"
edition = "2021"

[dependencies]
actix-web = { version = "4", default-features = false, features = ["macros"] }
bcrypt = "*"
chrono = "0.4"
diesel = { version = "2", features = ["postgres", "r2d2", "uuid", "chrono"] }
dotenv = "0.15"
r2d2 = "0.8"
regex = "1"
serde = { version = "1", features = ["derive"] }
uuid = { version = "1", features = ["v4"] }
