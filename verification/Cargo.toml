[package]
name = "roma"
version = "0.6.0"
edition = "2021"
publish = false

[dependencies]
clap = "3"
csv = "1"
itertools = "0.10"
tinytemplate = "1"
