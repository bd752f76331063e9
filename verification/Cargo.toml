[package]
name = "vector_map"
version = "0.1.0"
edition = "2021"
publish = false

[dependencies]
gfx = "0.18"
gfx_device_gl = "0.16"
gfx_text = "*"
gfx_window_glutin = "0.31"
glutin = "0.21"
reqwest = { version = "0.12", default-features = false, features = ["blocking", "rustls-tls"] }
serde_json = "1"
threadpool = "1"
