[package]
name = "cxx_dlang"
version = "0.2.0"
edition = "2021"
publish = false

[dependencies]
cxx = "=1.0.205"
cc = "=1.11.0"
