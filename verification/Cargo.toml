[package]
name = "plugin_dispatch"
version = "0.1.0"
edition = "2021"

[dependencies]
once_cell = "1"
