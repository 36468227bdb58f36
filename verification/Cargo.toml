[package]
name = "livewall"
version = "0.1.0"
edition = "2021"
publish = false

[dependencies]
anyhow = "1"
clap = { version = "4", features = ["derive"] }
directories = "5"
image = { version = "0.25", default-features = false, features = ["gif", "webp", "png", "jpeg", "bmp"] }
libc = "0.2"
memmap2 = "0.9"
rustix = { version = "0.38", features = ["fs", "param"] }
serde = { version = "1", features = ["derive"] }
serde_json = "1"
smithay-client-toolkit = { version = "0.19", default-features = false }
thiserror = "1"
tokio = { version = "1", features = ["full"] }
toml = "0.8"
tracing = "0.1"
tracing-subscriber = { version = "0.3", features = ["env-filter"] }
wayland-client = "0.31"
wayland-protocols = { version = "0.32", features = ["client", "unstable"] }
