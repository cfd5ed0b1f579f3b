[package]
name = "rsdctl"
version = "0.1.0"
edition = "2021"
publish = false

[dependencies]
parse_wiki_text = "=0.1.5"
anyhow = "=1.0.104"
serde_json = "=1.0.154"
reqwest = { version = "=0.11.27", features = ["blocking"] }
eframe = { version = "=0.22.0", default-features = false, features = ["glow", "default_fonts"] }
egui-notify = "=0.7.0"
