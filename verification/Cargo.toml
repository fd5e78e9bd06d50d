[package]
name = "x86_asm_test"
version = "0.1.0"
edition = "2021"
publish = false

[dependencies]
serde = { version = "1", features = ["derive"] }
serde_json = "1"
goblin = "*"
clap = { version = "4", features = ["derive"] }
libc = "0.2"
thiserror = "1"
