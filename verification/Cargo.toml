[package]
name = "yew_custom_components"
version = "0.1.0"
edition = "2021"
publish = false

[dependencies]
yew = "*"
serde = "*"
serde-value = "*"
