[package]
name = "keylogger"
version = "0.1.0"
edition = "2021"
publish = false

[dependencies]
env_logger = "*"
getopts = "*"
libc = "*"
log = "*"
sudo = "*"
