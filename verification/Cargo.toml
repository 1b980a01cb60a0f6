[package]
name = "emos"
version = "0.1.0"
edition = "2021"
publish = false

[dependencies]
x86_64 = { version = "0.14", default-features = false, features = ["instructions", "inline_asm"] }
spin = "0.9"
lazy_static = "1"
pic8259 = "0.10"
bootloader = { version = "0.9", features = ["map_physical_memory"] }
