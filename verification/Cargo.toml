[package]
name = "bytecalc"
version = "0.1.0"
edition = "2021"
publish = false

[dependencies]
clap = { version = "4", features = ["derive"] }
colored = "2"
miette = { version = "7", features = ["fancy"] }
rustyline = "14"
thiserror = "1"
