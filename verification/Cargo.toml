[package]
name = "rustphoto"
version = "0.1.0"
edition = "2021"
publish = false

[dependencies]
image = { version = "0.25", default-features = false, features = ["jpeg", "png"] }
dirs = "5"
thiserror = "1"
