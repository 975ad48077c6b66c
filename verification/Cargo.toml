[package]
name = "compositor_config"
version = "0.1.0"
edition = "2021"
publish = false

[dependencies]
chrono = "0.4"
hostname = "*"
jay-config = "*"
