[package]
name = "tree_render"
version = "0.1.0"
edition = "2021"
publish = false

[dependencies]
tree-sitter = "0.25"

[dev-dependencies]
tree-sitter-json = "0.24"
