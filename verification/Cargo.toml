[package]
name = "ptt_crawler"
version = "0.1.0"
edition = "2021"
publish = false

[dependencies]
encoding = "*"
telnet = "*"
