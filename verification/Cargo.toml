[package]
name = "esolangs"
version = "0.1.0"
edition = "2021"
publish = false

[dependencies]
rand = "=0.8.8"
regex = "=1.13.1"
lazy_static = "=1.5.1"
thiserror = "=1.0.69"
miette = "=5.10.0"
tree-sitter = "0.20"
tree-sitter-whitespace = "*"
