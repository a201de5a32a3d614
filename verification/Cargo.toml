[package]
name = "docrepo"
version = "0.1.0"
edition = "2021"
publish = false

[dependencies]
sha2 = "0.10"
candid = "0.10"
ic-cdk = "0.13"
ic-stable-structures = "0.6"
serde = "1"
