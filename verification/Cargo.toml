[package]
name = "snow_plow"
version = "0.1.0"
edition = "2021"
publish = false

[dependencies]
ansi_term = "*"
clap = { version = "*", features = ["derive"] }
clap_complete = "*"
clap_mangen = "*"
directories = "*"

[dev-dependencies]
csv = "*"
