[package]
name = "pack"
version = "0.1.0"
edition = "2021"
publish = false

[dependencies]
termion = "=4.0.6"
clap = "=4.6.7"
clap_complete = "*"
crossbeam-channel = "=0.5.17"
crossbeam-utils = "=0.8.23"
git2 = { version = "=0.21.0", default-features = false }
num_cpus = "=1.17.0"
signal-hook = "=0.4.5"
walkdir = "=2.5.0"
