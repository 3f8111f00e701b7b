[package]
name = "tgslib"
version = "0.1.0"
edition = "2021"
publish = false

[dependencies]
select = "=0.6.1"
