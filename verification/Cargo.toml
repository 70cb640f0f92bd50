[package]
name = "quill"
version = "0.1.0"
edition = "2021"
publish = false

[dependencies]
bevy = { version = "0.13", default-features = false }
impl-trait-for-tuples = "0.2"
winnow = "0.6"
