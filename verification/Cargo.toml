[package]
name = "lexer"
version = "0.1.0"
edition = "2021"
publish = false

[dependencies]
peek-nth = "*"
serde = { version = "1", features = ["derive"] }
serde_derive = "1"
