[package]
name = "termshell"
version = "0.1.0"
edition = "2021"
publish = false

[dependencies]
image = "0.24"
hostname = "0.3"
pty = "0.2"
