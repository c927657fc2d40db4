[package]
name = "zqm_engine"
version = "0.1.0"
edition = "2021"
publish = false

[dependencies]
hashcons = "=0.1.2"
log = "=0.4.34"
env_logger = "=0.7.1"
serde = { version = "=1.0.229", features = ["derive", "rc"] }
serde_json = "=1.0.154"
clap = "=2.34.0"
structopt = "=0.2.18"
sdl2 = "=0.32.2"
wasm-bindgen = "0.2"
web-sys = { version = "0.3", features = ["CanvasRenderingContext2d", "Document", "Element", "HtmlCanvasElement", "KeyboardEvent", "Window", "console"] }
