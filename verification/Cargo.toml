[package]
name = "k8s_openapi_fixups"
version = "0.1.0"
edition = "2021"
publish = false
