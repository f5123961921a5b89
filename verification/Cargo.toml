[package]
name = "gestor_proyectos"
version = "0.3.0"
edition = "2021"
publish = false

[dependencies]
rusqlite = { version = "*", features = ["bundled"] }
dirs = "*"
chrono = "*"
