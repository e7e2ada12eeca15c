[package]
name = "virt_arena"
version = "0.1.0"
edition = "2021"

[dependencies]
libc = "0.2"
windows = { version = "*", default-features = false, features = ["Win32_Foundation", "Win32_System_Memory"] }
