[package]
name = "cpt_hook"
version = "0.1.0"
edition = "2021"
publish = false

[dependencies]
serde_json = "*"
clap = "*"
colored = "*"
dialoguer = "*"
execute = "*"
git2 = "*"
