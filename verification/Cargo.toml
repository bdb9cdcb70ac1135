[package]
name = "mngr"
version = "0.1.0"
edition = "2021"
publish = false

[dependencies]
serde_json = "1"
rayon = "1"
num_cpus = "1"
clap = "4"
