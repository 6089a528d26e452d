[package]
name = "blog"
version = "0.1.0"
edition = "2021"
publish = false

[dependencies]
pulldown-cmark = "*"
syntect = "*"
katex = "*"
chrono = "*"
rss = "*"
