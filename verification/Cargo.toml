[package]
name = "tapeworm"
version = "0.1.0"
edition = "2021"
publish = false

[dependencies]
url = "*"
sanitize-filename = "*"
audiotags = "*"
chrono = "*"
dirs = "*"
headless_chrome = "*"
tabwriter = "*"
