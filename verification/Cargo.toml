[package]
name = "maven_toolbox"
version = "0.1.0"
edition = "2021"
publish = false

[dependencies]
ureq = "2"
roxmltree = "0.20"
