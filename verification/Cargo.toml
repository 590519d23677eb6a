[package]
name = "loot_decompiler"
version = "0.1.0"
edition = "2021"
publish = false

[dependencies]
anyhow = "*"
bimap = "*"
clap = { version = "*", features = ["derive"] }
elf = "*"
iced-x86 = { version = "*", default-features = false, features = ["decoder", "std"] }
