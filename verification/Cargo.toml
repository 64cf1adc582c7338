[package]
name = "anthem"
version = "0.1.0"
edition = "2021"
publish = false

[dependencies]
regex = "1"
petgraph = "0.6"
indexmap = "2"
itertools = "0.13"
either = "1"
thiserror = "1"
anyhow = "1"
clap = { version = "4", features = ["derive"] }
walkdir = "2"
num_cpus = "1"
threadpool = "1"
