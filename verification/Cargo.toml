[package]
name = "megaparse"
version = "0.1.0"
edition = "2021"
publish = false

[dependencies]
chrono = "0.4"
futures = "0.3"
iced = { version = "0.13", default-features = false, features = ["tiny-skia", "tokio"] }
iced_futures = "0.13"
native-dialog = "0.7"
