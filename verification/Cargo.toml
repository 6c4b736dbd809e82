[package]
name = "raytrace"
version = "0.1.0"
edition = "2021"
publish = false

[dependencies]
crossbeam-utils = "0.8"
png = "0.16"
rand = "0.8"
ron = "0.6"
serde = { version = "1", features = ["derive"] }
structopt = "0.3"
