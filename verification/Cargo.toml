[package]
name = "wpmeta"
version = "0.1.0"
edition = "2021"
publish = false

[dependencies]
clap = { version = "4", features = ["derive"] }
eyre = "0.6"
hex_color = { version = "3", features = ["serde"] }
image = { version = "0.25", default-features = false, features = ["jpeg", "png"] }
isolang = "2"
log = "0.4"
material-color-utilities = "1.0.0-dev.18"
pretty_env_logger = "0.5"
quantette = "*"
rayon = "1"
serde = { version = "1", features = ["derive"] }
serde_json = "1"
spdx = "*"
tinytemplate = "1"
toml = "*"
