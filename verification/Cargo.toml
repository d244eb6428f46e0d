[package]
name = "vex_pages"
version = "0.1.0"
edition = "2021"
publish = false

[dependencies]
anyhow = "1"
memmap2 = "*"
parking_lot = "*"
