[package]
name = "rusty_todos"
version = "0.1.0"
edition = "2021"
publish = false

[dependencies]
chrono = "0.4"
crossterm = "0.26"
ratatui = "0.21"
directories = "5"
serde = { version = "1", features = ["derive"] }
serde_json = "1"
