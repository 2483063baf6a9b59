[package]
name = "app_extract_info"
version = "0.1.0"
edition = "2021"
publish = false

[dependencies]
arsc = "=0.1.5"
axmldecoder = "=0.5.0"
base64 = "=0.23.1"
eframe = { version = "*", default-features = false, features = ["default_fonts", "glow", "x11"] }
egui = "*"
egui_extras = { version = "*", default-features = false, features = ["image"] }
image = { version = "*", default-features = false, features = ["png"] }
plist = "=1.10.3"
rfd = { version = "*", default-features = false, features = ["xdg-portal", "tokio"] }
thiserror = "=2.0.21"
xml-rs = "=0.8.29"
zip = { version = "=9.1.0", default-features = false, features = ["deflate"] }
