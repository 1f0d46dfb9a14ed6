[package]
name = "minecraft_map_tool"
version = "0.1.0"
edition = "2021"
publish = false

[dependencies]
anyhow = "*"
clap = { version = "*", features = ["derive"] }
comfy-table = "*"
crossterm = "*"
fastnbt = "*"
flate2 = "*"
heck = "*"
image = { version = "*", default-features = false, features = ["png"] }
indicatif = "*"
natord = "*"
ptree = "*"
quick-xml = "*"
serde = { version = "*", features = ["derive"] }
serde_json = "*"
viuer = "*"
