[package]
name = "rhai_redis"
version = "0.1.0"
edition = "2021"
publish = false

[dependencies]
redis = "*"
rhai = "*"
rand = "*"
thiserror = "*"
