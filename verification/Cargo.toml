[package]
name = "hometoucher"
version = "0.1.0"
edition = "2021"
publish = false

[dependencies]
tokio = { version = "*", features = ["full"] }
tokio-stream = "*"
tokio-fd = "*"
framebuffer = "*"
png = "*"
mdns = "*"
gethostname = "*"
rustop = "*"
ctrlc = "*"
