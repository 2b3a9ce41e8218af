[package]
name = "tui-realm-stdlib"
version = "0.1.0"
edition = "2021"
publish = false

[dependencies]
textwrap = "0.16"
tuirealm = "1.9"
unicode-width = "0.1"
