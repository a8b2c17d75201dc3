[package]
name = "disasm"
version = "0.1.0"
edition = "2021"
publish = false

[dependencies]
zydis = "=3.0.0"
tabwriter = "=1.4.1"
structopt = "=0.3.26"
