[package]
name = "hyprland-autoname-workspaces"
version = "0.1.0"
edition = "2021"
publish = false

[dependencies]
regex = "1"
strfmt = "0.2"
clap = { version = "4", features = ["derive"] }
hyprland = "0.3"
inotify = "0.10"
serde = { version = "1", features = ["derive"] }
serde_json = "1"
signal-hook = "0.3"
single-instance = "0.3"
toml = "0.7"
xdg = "2"
