[package]
name = "ray_tracer"
version = "0.1.0"
edition = "2021"
publish = false

[dependencies]
anyhow = "1"
base64 = "0.13"
image = { version = "0.23", default-features = false, features = ["png", "pnm"] }
serde_yaml = "0.8"
uuid = { version = "1", features = ["v4"] }
web-sys = { version = "0.3", features = ["console", "HtmlTextAreaElement", "KeyboardEvent"] }
yew = "0.19"
