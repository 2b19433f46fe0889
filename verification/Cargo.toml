[package]
name = "mdbook_typst_doc"
version = "0.1.0"
edition = "2021"
publish = false

[dependencies]
anyhow = "1"
clap = "4"
fs_extra = "1"
handlebars = "*"
md5 = "*"
mdbook = { version = "0.4", default-features = false }
regex = "1"
serde = { version = "1", features = ["derive"] }
serde_json = "1"
toml = "0.5"
typst-syntax = "*"
