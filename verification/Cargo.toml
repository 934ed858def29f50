[package]
name = "funclang_interpreter"
version = "0.1.0"
edition = "2021"
publish = false

[dependencies]
lalrpop-util = { version = "*", features = ["lexer"] }
