[package]
name = "untitled_programming_language_project"
version = "0.1.0"
edition = "2021"
publish = false

[dependencies]
clap = { version = "4", features = ["derive"] }
lalrpop-util = { version = "0.19", features = ["lexer"] }
once_cell = "1"
rustc_apfloat = "0.2"

[dev-dependencies]
rand = "0.8"
