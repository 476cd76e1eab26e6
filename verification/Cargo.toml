[package]
name = "force_lang"
version = "0.1.0"
edition = "2021"
publish = false

[dependencies]
clap = "*"
pest = "*"
pest_derive = "*"
