[package]
name = "llvmmgmt"
version = "0.1.0"
edition = "2021"
publish = false

[dependencies]
semver = "1"
itertools = "*"
shellexpand = "*"
which = "*"
glob = "0.3"
num_cpus = "1"
serde = "1"
serde_derive = "1"
simplelog = "*"
structopt = "0.3"
toml = "*"
