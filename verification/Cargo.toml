[package]
name = "kanils"
version = "0.1.0"
edition = "2021"
publish = false

[dependencies]
byteorder = "=1.5.0"
cannyls = "=0.10.0"
clap = "=2.34.0"
indicatif = "=0.15.0"
rand = "=0.8.8"
rustyline = "=9.1.2"
structopt = "=0.2.18"
trackable = "=0.2.24"

[dev-dependencies]
regex = "=1.13.1"
