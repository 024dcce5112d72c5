[package]
name = "influxdb3_server"
version = "0.1.0"
edition = "2021"
publish = false

[dependencies]
arrow = "=59.3.1"
async-trait = "=0.1.92"
datafusion = { version = "=55.2.0", default-features = false, features = ["sql"] }
