[package]
name = "font_compare"
version = "0.1.0"
edition = "2021"
publish = false

[dependencies]
regex = "1"
time = "0.3"
clap = { version = "4", features = ["derive", "env"] }
color-eyre = "0.6"
comemo = "0.4"
dirs = "5"
fontdb = "0.16"
rayon = "1"
typst = "0.11"
typst-pdf = "0.11"
typst-render = "0.11"
