[package]
name = "saiko_ui"
version = "0.1.0"
edition = "2021"
publish = false

[dependencies]
etagere = "=0.3.0"
ttf-parser = "=0.18.1"
msdfgen = { version = "=0.2.1", default-features = false, features = ["ttf-parser", "png"] }
notosans = "=0.1.0"
fit_text = { version = "=0.3.3", default-features = false }
thiserror = "=2.0.21"
bytemuck = "=1.25.2"
