[package]
name = "imgsearch"
version = "0.1.0"
edition = "2021"
publish = false

[dependencies]
cliprs = "*"
crossterm = "*"
image = { version = "*", default-features = false, features = ["jpeg", "png", "bmp", "gif", "tga", "hdr", "pnm"] }
nano-vectordb-rs = "*"
ratatui = "*"
ratatui-image = { version = "*", default-features = false, features = ["crossterm"] }
regex = "*"
reqwest = { version = "0.12", default-features = false, features = ["blocking", "rustls-tls"] }
serde = { version = "*", features = ["derive"] }
serde_json = "*"
