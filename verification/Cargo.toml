[package]
name = "iced_webview"
version = "0.1.0"
edition = "2021"
publish = false

[dependencies]
url = "=2.5.8"
urlencoding = "=2.1.3"
rand = "=0.8.8"
libc = "=0.2.191"
log = "0.4"
iced = { version = "=0.14.0", default-features = false, features = ["advanced", "image-without-codecs", "wgpu", "x11", "thread-pool"] }
