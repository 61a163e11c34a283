[package]
name = "lgaircon"
version = "0.1.0"
edition = "2021"
publish = false

[dependencies]
actix-web = "4"
diesel = { version = "2", features = ["sqlite"] }
diesel_migrations = "2"
rust-lirc-client-sys = "*"
serde = { version = "1", features = ["derive"] }
tokio = { version = "1", features = ["macros", "rt-multi-thread"] }
