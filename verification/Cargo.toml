[package]
name = "metrics_registry"
version = "0.1.0"
edition = "2021"
publish = false

[dependencies]
bevy = { version = "=0.18.1", default-features = false }
egui = { version = "=0.37.0", default-features = false }
fuzzy-matcher = "=0.3.7"
metrics = "=0.24.6"
metrics-util = "=0.20.4"
