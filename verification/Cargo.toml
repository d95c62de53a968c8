[package]
name = "kj_build"
version = "0.1.0"
edition = "2021"
publish = false

[dependencies]
cc = "1"
cxx = "1"
