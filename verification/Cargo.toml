[package]
name = "rbx_xml"
version = "0.1.0"
edition = "2021"
publish = false

[dependencies]
xml-rs = "0.8"
rbx_dom_weak = "2"
failure = { version = "0.1", default-features = false, features = ["std", "derive"] }
