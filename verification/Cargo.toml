[package]
name = "snip"
version = "0.1.0"
edition = "2021"
publish = false

[dependencies]
scrap = "0.5"
winapi = { version = "0.3", features = ["minwindef", "ntdef", "shellscalingapi", "windef", "wingdi", "winuser"] }

[dev-dependencies]
png = "*"
repng = "0.2"
