[package]
name = "nut"
version = "0.1.0"
edition = "2021"
publish = false

[dependencies]
chrono = { version = "=0.4.45", features = ["serde"] }
validator = { version = "=0.21.0", features = ["derive"] }
serde = { version = "=1.0.229", features = ["derive"] }
serde_json = "=1.0.154"
diesel = { version = "=1.4.8", features = ["postgres", "chrono", "serde_json"] }
rocket = { version = "=0.5.2", features = ["json"] }
rocket_dyn_templates = { version = "=0.2.0", features = ["tera"] }
