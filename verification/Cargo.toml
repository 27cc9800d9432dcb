[package]
name = "symphonium"
version = "0.1.0"
edition = "2021"
publish = false

[dependencies]
log = "0.4"
rubato = "0.15"
symphonia = "0.5"
