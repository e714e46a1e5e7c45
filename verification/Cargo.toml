[package]
name = "sso_portal"
version = "0.1.0"
edition = "2021"
publish = false

[dependencies]
reqwest = { version = "=0.13.5", default-features = false, features = ["blocking", "query", "form"] }
aws-credential-types = "=1.3.0"
