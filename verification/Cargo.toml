[package]
name = "molsurf"
version = "0.1.0"
edition = "2021"
publish = false
