[package]
name = "calloop"
version = "0.1.0"
edition = "2021"
publish = false

[dependencies]
async-task = "4"
futures-io = "0.3"
io-lifetimes = "1"
log = "0.4"
nix = "0.26"
pin-utils = "0.1"
slab = "0.4"
thiserror = "1"
vec_map = "0.8"
