[package]
name = "treelight"
version = "0.1.0"
edition = "2021"
publish = false

[dependencies]
tree-sitter = "=0.27.0"
tree-sitter-highlight = "=0.27.0"
tree-sitter-rust = "=0.24.2"
tree-sitter-javascript = "=0.25.0"
tree-sitter-typescript = "=0.23.2"
tree-sitter-python = "=0.25.0"
tree-sitter-cpp = "=0.23.4"
tree-sitter-java = "=0.23.5"
tree-sitter-go = "=0.25.0"
