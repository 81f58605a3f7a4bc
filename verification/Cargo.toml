[package]
name = "subs"
version = "0.1.0"
edition = "2021"
publish = false

[dependencies]
gstreamer = "=0.12.2"
sunk = "=0.1.2"
crossbeam-channel = "=0.5.17"
ctrlc = "=3.5.2"
dirs = "=7.0.0"
clap = "=2.34.0"
structopt = "=0.2.18"
