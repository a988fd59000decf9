[package]
name = "flipchart"
version = "0.1.0"
edition = "2021"
publish = false

[dependencies]
base64 = "*"
eframe = { version = "*", default-features = false, features = ["glow", "default_fonts", "x11"] }
winit = { version = "*", default-features = false, features = ["x11", "rwh_06"] }
resvg = { version = "*", default-features = false, features = ["text", "system-fonts", "memmap-fonts"] }
rmcp = { version = "*", features = ["server", "macros", "transport-io"] }
schemars = "*"
serde = { version = "*", features = ["derive"] }
tokio = { version = "*", features = ["rt", "signal", "macros", "io-std"] }
objc2 = "*"
objc2-app-kit = "*"
objc2-foundation = "*"
