[package]
name = "krait"
version = "0.1.0"
edition = "2021"
publish = false

[dependencies]
git2 = { version = "*", default-features = false }
mlua = { version = "*", features = ["lua54", "vendored"] }
sha1 = "*"
nix = { version = "*", features = ["user"] }
