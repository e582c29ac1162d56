[package]
name = "url_mapper"
version = "0.1.0"
edition = "2021"
publish = false

[dependencies]
async-trait = "0.1"
rand = "0.8"
sqlx = { version = "0.8", default-features = false, features = ["postgres", "runtime-tokio"] }
stopwatch = "*"
tokio = { version = "1", features = ["macros", "rt", "sync"] }
