[package]
name = "qubit_io_text"
version = "0.1.0"
edition = "2021"
publish = false

[dependencies]
encoding_rs = "=0.8.44"
qubit-codec = { version = "=0.17.3", features = ["io"] }
qubit-codec-text = "=0.9.3"
qubit-io = "=0.19.3"
qubit-utils = "=0.3.2"
