[package]
name = "gtest"
version = "0.1.0"
edition = "2021"
publish = false

[dependencies]
sp-sandbox = "=0.9.0"
# Not called: keeps the build of sp-sandbox to one version of schnorrkel.
substrate-bip39 = "=0.4.4"
