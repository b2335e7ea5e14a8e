[package]
name = "svm"
version = "0.1.0"
edition = "2021"
publish = false

[dependencies]
byteorder = "1"
log = "0.4"
proc-macro2 = "1"
quote = "1"
syn = { version = "1.0", features = ["full"] }
tiny-keccak = { version = "2.0.2", features = ["keccak"] }
wasmer = "2.3.0"
