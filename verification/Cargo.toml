[package]
name = "gpui_taffy"
version = "0.1.0"
edition = "2021"
publish = false

[dependencies]
taffy = "0.13"
stacksafe = "=1.0.3"
