[package]
name = "calvera"
version = "0.1.0"
edition = "2021"
publish = false

[dependencies]
crossbeam-utils = "0.8"
thiserror = "2"
core_affinity = "0.8"

[dev-dependencies]
loom = "0.7"
