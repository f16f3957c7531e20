[package]
name = "char_lcd"
version = "0.1.0"
edition = "2021"
publish = false

[dependencies]
embedded-hal = "0.2"
mcp23017 = "*"
