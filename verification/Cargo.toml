[package]
name = "traffic_lights"
version = "0.1.0"
edition = "2021"
publish = false

[dependencies]
rand = "0.9"
objc = "0.2"
cocoa = "0.26"
