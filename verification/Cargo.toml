[package]
name = "newsletter"
version = "0.1.0"
edition = "2021"
publish = false

[dependencies]
actix-files = { version = "0.6", default-features = false }
actix-session = { version = "0.7", default-features = false, features = ["redis-rs-session"] }
actix-web = { version = "4", default-features = false, features = ["macros", "cookies", "secure-cookies"] }
actix-web-flash-messages = { version = "0.4", default-features = false, features = ["cookies"] }
actix-web-lab = { version = "0.18", default-features = false }
anyhow = "1"
chrono = { version = "0.4", default-features = false, features = ["clock"] }
rand = { version = "0.8", default-features = false, features = ["std", "std_rng", "getrandom"] }
reqwest = { version = "0.11", default-features = false, features = ["json"] }
secrecy = { version = "0.8", features = ["serde"] }
serde = { version = "1", features = ["derive"] }
sqlx = { version = "0.6", default-features = false, features = ["runtime-tokio-rustls", "postgres", "uuid", "chrono"] }
tera = { version = "1", default-features = false }
thiserror = "1"
tokio = { version = "1", features = ["macros", "rt-multi-thread", "time"] }
tracing = "0.1"
tracing-actix-web = "0.7"
uuid = { version = "1", features = ["v4"] }
