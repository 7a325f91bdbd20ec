[package]
name = "fisher"
version = "0.1.0"
edition = "2021"
publish = false

[dependencies]
blowfish = "*"
rpassword = "*"
sha2 = "*"
threefish = "*"
twofish = "*"
