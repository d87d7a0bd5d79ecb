[package]
name = "wordcount"
version = "0.1.0"
edition = "2021"
publish = false

[dependencies]
glob = "0.3"
pdf-extract = "*"
regex = "1"
zip = { version = "*", default-features = false, features = ["deflate"] }
