[package]
name = "ape_dts"
version = "0.1.0"
edition = "2021"
publish = false

[dependencies]
concurrent-queue = "*"
sqlx = { version = "*", default-features = false, features = ["mysql", "postgres", "runtime-tokio-rustls"] }
async-trait = "*"
futures = "*"
log = "*"
anyhow = "*"
async-mutex = "*"
