[package]
name = "affine_native"
version = "0.1.0"
edition = "2021"
publish = false

[dependencies]
chrono = "=0.4.45"
sha3 = "=0.10.9"
rand = "=0.9.5"
sqlx = { version = "=0.8.6", default-features = false, features = ["runtime-tokio", "sqlite", "chrono", "migrate"] }
tokio = { version = "=1.54.1", features = ["sync", "rt"] }
thiserror = "=2.0.21"
url = "=2.5.8"
infer = "=0.22.0"
path-ext = "=0.1.2"
text-splitter = { version = "=0.33.0", features = ["markdown"] }
readability = { version = "=0.3.0", default-features = false }
pdf-extract = "=0.12.1"
docx-parser = "=0.1.1"
# docx-parser 0.1.1 asks for docx-rust 0.1.8 or later and compiles against
# 0.1.8 only, so that version is held here.
docx-rust = "=0.1.8"
homedir = "=0.3.6"
mp3lame-encoder = "=0.2.5"
rubato = "=0.16.2"
symphonia = { version = "=0.5.5", features = ["all"] }
tree-sitter = "=0.27.1"
tree-sitter-rust = "=0.24.2"
tree-sitter-c = "=0.24.2"
tree-sitter-cpp = "=0.23.4"
tree-sitter-javascript = "=0.25.0"
tree-sitter-typescript = "=0.23.2"
tree-sitter-go = "=0.25.0"
tree-sitter-python = "=0.25.0"
