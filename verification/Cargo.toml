[package]
name = "saftbar"
version = "0.1.0"
edition = "2021"
publish = false

[dependencies]
log = "0.4"
tokio = { version = "1", features = ["net", "rt"] }
x11 = { version = "2", features = ["xlib", "xft", "xrender"] }
xcb = { version = "1", features = ["randr", "xlib_xcb"] }
