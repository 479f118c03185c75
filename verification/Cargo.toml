[package]
name = "nps"
version = "0.1.0"
edition = "2021"
publish = false

[dependencies]
sqlparser = "0.52"
rand = "0.9"
syn = { version = "2", features = ["full"] }
prettyplease = "0.2"
chrono = "0.4"
clap = { version = "4", features = ["derive"] }
