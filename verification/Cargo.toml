[package]
name = "calcit_runner"
version = "0.1.0"
edition = "2021"
publish = false

[dependencies]
cirru_edn = "*"
cirru_parser = "*"
clap = { version = "*", features = ["derive"] }
ctrlc = "*"
dirs = "*"
libloading = "*"
