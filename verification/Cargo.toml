[package]
name = "aiken_lang"
version = "0.1.0"
edition = "2021"
publish = false

[dependencies]
indexmap = { version = "1.9", features = ["std"] }
itertools = "0.10"
vec1 = "1.10"
regex = "1"
clap = { version = "4", features = ["derive"] }
miette = "5"
owo-colors = "3"
indoc = "1"
