[package]
name = "tkbar"
version = "0.1.0"
edition = "2021"
publish = false

[dependencies]
toml = "*"
serde = { version = "*", features = ["derive"] }
gtk4 = { version = "*", features = ["v4_12"] }
gtk4-layer-shell = "*"
async-channel = "*"
directories = "*"
niri-ipc = "*"
hyprland = "*"
swayipc = "*"
neli-wifi = "*"
dagger-sdk = "*"
tokio = { version = "*", features = ["rt-multi-thread", "macros"] }
eyre = "*"
