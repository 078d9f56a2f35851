[package]
name = "pgrx-bindgen"
version = "0.13.0"
edition = "2021"
publish = false

[dependencies]
bindgen = "=0.71.1"
cc = "=1.11.0"
clap = { version = "=4.6.7", features = ["derive", "env"] }
eyre = "=0.6.14"
libc = "=0.2.191"
prettyplease = "=0.2.37"
proc-macro2 = "=1.0.107"
quote = "=1.0.47"
regex = "=1.13.1"
shlex = "=1.3.0"
syn = { version = "=2.0.119", features = ["full", "visit-mut"] }
target-triple = "0.1"
tempfile = "=3.27.0"
zip = { version = "=2.6.1", default-features = false, features = ["deflate"] }
