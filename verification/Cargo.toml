[package]
name = "queuing_system_modeling"
version = "0.1.0"
edition = "2021"
publish = false

[dependencies]
clap = { version = "4", features = ["derive"] }
config = { version = "0.13", default-features = false, features = ["toml"] }
console = "0.15"
csv = "1"
ctrlc = "3"
eyre = "0.6"
indicatif = "0.17"
log = "0.4"
num_cpus = "1"
once_cell = "1"
rand = "0.8"
rand_distr = "0.4"
serde = { version = "1", features = ["derive"] }
simplelog = "0.12"
threadpool = "1"
