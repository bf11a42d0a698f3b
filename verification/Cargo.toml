[package]
name = "rmore"
version = "0.1.0"
edition = "2021"
publish = false

[dependencies]
bugreport = "*"
clap = { version = "4", features = ["cargo"] }
clircle = "*"
content_inspector = "0.2"
nu-ansi-term = "*"
once_cell = "1"
termion = "*"
thiserror = "*"
wild = "2"
