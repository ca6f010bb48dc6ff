[package]
name = "git_access"
version = "0.1.0"
edition = "2021"
publish = false

[dependencies]
bstr = { version = "1", default-features = false, features = ["std"] }
libc = "0.2"
cstr = "0.2"
curl-sys = { version = "0.4", default-features = false }
derive_more = "0.99"
getset = "0.1"
