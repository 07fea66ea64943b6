[package]
name = "rln_fold"
version = "0.1.0"
edition = "2021"
publish = false

[dependencies]
nova-snark = "=0.76.0"
ff = "=0.13.1"
generic-array = "=1.4.5"
bincode = { version = "=2.0.1", features = ["serde"] }
flate2 = "=1.1.10"
