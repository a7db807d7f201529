[package]
name = "rsytup"
version = "0.1.0"
edition = "2021"
publish = false

[dependencies]
anyhow = "1"
ab_glyph = "=0.2.32"
async-google-apis-common = "=0.4.0"
chrono = "=0.4.45"
clap = { version = "=4.6.7", features = ["derive"] }
env_logger = "*"
hyper = { version = "=0.14.32", features = ["full"] }
hyper-rustls = { version = "0.23", features = ["http2"] }
image = { version = "=0.25.10", default-features = false, features = ["png", "jpeg"] }
imageproc = "=0.27.0"
strum = { version = "=0.28.0", features = ["derive"] }
tokio = { version = "=1.53.2", features = ["macros", "rt-multi-thread", "fs"] }
webbrowser = "*"
