[package]
name = "givme"
version = "0.1.0"
edition = "2021"
publish = false

[dependencies]
base64 = "0.13"
nettle = "7"
rand = "0.8"
clap = "2"
rpassword = "7"
sqlite = "0.26"
home = "0.5"
whoami = "1"
