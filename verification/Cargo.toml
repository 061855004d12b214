[package]
name = "fusequery"
version = "0.1.0"
edition = "2021"
publish = false

[dependencies]
anyhow = "1"
async-channel = "*"
async-trait = "0.1"
log = "0.4"
minitrace = "*"
petgraph = "0.6"
