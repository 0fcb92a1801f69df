[package]
name = "tailwind_to_css"
version = "0.1.0"
edition = "2021"
publish = false

[dependencies]
tailwind-ast = "*"
