[package]
name = "ats_pd"
version = "0.1.0"
edition = "2021"
publish = false

[dependencies]
atomic = "0.5"
clap = "2"
itertools = "0.10"
rand = "0.7"
tempfile = "3"
