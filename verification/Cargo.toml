[package]
name = "verco"
version = "0.1.0"
edition = "2021"
publish = false

[dependencies]
crossterm = "0.17"
ctrlc = "3"
rustyline = "6"
