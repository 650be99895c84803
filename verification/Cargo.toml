[package]
name = "locscan"
version = "0.1.0"
edition = "2021"
publish = false

[dependencies]
grep-searcher = "*"
encoding_rs_io = "*"
