[package]
name = "digit_recognition"
version = "0.1.0"
edition = "2021"
publish = false

[dependencies]
typed-io = "*"
nalgebra = { version = "0.31", features = ["serde-serialize"] }
rand = "0.8"
rand_distr = "0.4"
serde = { version = "1", features = ["derive"] }
serde_json = "1"
thiserror = "1"
args = "2"
getopts = "0.2"
druid = "0.7"
