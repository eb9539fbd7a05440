[package]
name = "sub_searcher"
version = "0.1.0"
edition = "2021"
publish = false

[dependencies]
zip = "=8.6.0"
select = "=0.6.1"
toml = "=0.9.8"
serde = { version = "=1.0.229", features = ["derive"] }
