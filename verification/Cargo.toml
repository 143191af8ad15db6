[package]
name = "reaper_svg"
version = "0.1.0"
edition = "2021"
publish = false

[dependencies]
resvg = "0.41"
bpaf = { version = "0.9", features = ["derive"] }
nom = "7"
shell-words = "1"
thiserror = "1"
