[package]
name = "mdrender"
version = "0.1.0"
edition = "2021"
publish = false

[dependencies]
syntect = { version = "5", default-features = false, features = ["default-fancy"] }
pulldown-cmark = "0.11"
egui = "0.27"
env_logger = { version = "0.11", default-features = false }
log = "0.4"
open = "5"
