[package]
name = "masm_analysis"
version = "0.1.0"
edition = "2021"
publish = false

[dependencies]
miden-assembly-syntax = "=0.20.6"
miden-debug-types = "=0.20.6"
