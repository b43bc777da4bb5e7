[package]
name = "miden_vm_lib"
version = "0.1.0"
edition = "2021"
publish = false

[dependencies]
miden-crypto = "0.9"
hex = "0.4"
structopt = "0.3"
