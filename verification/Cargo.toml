[package]
name = "melee_pc"
version = "0.1.0"
edition = "2021"
publish = false

[dependencies]
serde = { version = "1", features = ["derive"] }
serde_json = "1"
tokio = { version = "1", features = ["macros", "rt", "net", "io-util"] }
clap = { version = "4", features = ["derive"] }
egui = "*"
bytemuck = "1"
