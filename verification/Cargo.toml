[package]
name = "taskpool"
version = "0.1.0"
edition = "2021"
publish = false

[dependencies]
chrono = "=0.4.45"
clap = { version = "=4.6.7", features = ["derive"] }
postgres = { version = "=0.19.14", features = ["with-chrono-0_4"] }
prost = "=0.14.4"
prost-types = "=0.14.4"
rand = "=0.10.3"
