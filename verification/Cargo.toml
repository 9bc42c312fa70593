[package]
name = "rmenu"
version = "0.1.0"
edition = "2021"
publish = false

[dependencies]
cairo-rs = { version = "=0.22.9", features = ["xcb"] }
pangocairo = "=0.22.9"
xcb = { version = "=1.7.1", features = ["xkb", "as-raw-xcb-connection"] }
xkbcommon = { version = "=0.9.0", features = ["x11"] }
xkeysym = "=0.2.1"
