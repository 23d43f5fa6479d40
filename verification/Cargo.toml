[package]
name = "geo_plegmata"
version = "0.1.0"
edition = "2021"
publish = false

[dependencies]
geo = "*"
h3o = "*"
rand = "0.8"
tracing = "*"
