[package]
name = "tzparse"
version = "0.1.0"
edition = "2021"
publish = false

[dependencies]
chrono = "=0.4.45"
libtzfile = "=3.1.1"
