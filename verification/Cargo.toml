[package]
name = "tt_gui"
version = "0.1.0"
edition = "2021"
publish = false

[dependencies]
tcl = "*"
tk = "*"
time_table = "*"
tuplex = "*"
