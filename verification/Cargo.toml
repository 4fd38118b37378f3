[package]
name = "dharitri_sim"
version = "0.1.0"
edition = "2021"
publish = false

[dependencies]
denali = "=0.12.0"
