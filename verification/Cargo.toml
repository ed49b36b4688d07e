[package]
name = "eth_metrics"
version = "0.1.0"
edition = "2021"
publish = false

[dependencies]
chrono = "*"
clap = "*"
console = "*"
fs_extra = "*"
gnuplot = "*"
indicatif = "*"
libc = "*"
rand = "*"
separator = "*"
tempdir = "*"
