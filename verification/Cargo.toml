[package]
name = "unzip_tool"
version = "0.1.0"
edition = "2021"
publish = false

[dependencies]
zip = "=0.6.6"
flate2 = "=1.1.10"
tar = "=0.4.46"
eframe = { version = "=0.27.2", default-features = false, features = ["default_fonts", "glow"] }
rfd = { version = "0.14", default-features = false, features = ["xdg-portal", "tokio"] }
