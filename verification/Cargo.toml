[package]
name = "cryptum_text"
version = "0.1.0"
edition = "2021"
publish = false

[dependencies]
dirs = "*"
git2 = { version = "*", default-features = false }
gtk4 = "*"
libadwaita = { version = "*", features = ["v1_5"] }
relm4 = { version = "*", features = ["libadwaita"] }
relm4-components = "*"
serde = { version = "*", features = ["derive"] }
serde_json = "*"
sourceview5 = "*"
