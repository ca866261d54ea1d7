[package]
name = "python_autodoc"
version = "0.1.0"
edition = "2021"
publish = false

[dependencies]
tree-sitter = "*"
tree-sitter-python = "*"
tokio = { version = "1", features = ["macros", "rt-multi-thread", "io-std"] }
tower-lsp-server = "*"
zed_extension_api = "*"
