[package]
name = "frd_vnc"
version = "0.1.0"
edition = "2021"
publish = false

[dependencies]
anyhow = "1"
cpal = "*"
des = "0.8"
fdk-aac = "*"
fdk-aac-sys = "*"
flate2 = "1"
getrandom = "0.2"
minifb = "*"
