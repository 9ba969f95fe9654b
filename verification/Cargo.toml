[package]
name = "hierarchy"
version = "0.1.0"
edition = "2021"

[dependencies]
convert_case = "*"
proc-macro2 = "*"
quote = "*"
