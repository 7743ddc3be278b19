[package]
name = "zed_bsl"
version = "0.1.0"
edition = "2021"
publish = false

[dependencies]
miniz_oxide = "*"
serde_json = "1"
tar = "*"
flate2 = "*"
ureq = "2"
zed_extension_api = "*"
