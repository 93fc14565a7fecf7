[package]
name = "pylon"
version = "0.2.3"
edition = "2021"
publish = false

[dependencies]
serde_json = "1"
chrono = { version = "0.4", features = ["serde"] }
serde = { version = "1", features = ["derive"] }
reqwest = { version = "0.11", default-features = false, features = ["json", "rustls-tls"] }
tokio = { version = "1", features = ["full"] }
actix-web = { version = "4", default-features = false, features = ["macros", "cookies"] }
actix-session = { version = "0.7", features = ["cookie-session"] }
config = { version = "0.13", default-features = false, features = ["toml"] }
mime_guess = "2"
notify = "4"
rust-embed = "6"
sysinfo = { version = "0.29", features = ["serde"] }
toml = "0.8"
