[package]
name = "tg_md_escape"
version = "0.1.0"
edition = "2021"
publish = false

[dependencies]
pulldown-cmark = "=0.10.3"
pulldown-cmark-to-cmark = "=13.0.0"
