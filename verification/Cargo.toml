[package]
name = "nolik"
version = "0.1.0"
edition = "2021"
publish = false

[dependencies]
blake2 = "=0.10.6"
crypto_box = "=0.9.1"
sodiumoxide = "=0.2.7"
thiserror = "=1.0.69"
frame-support = { version = "*", default-features = false }
frame-system = { version = "*", default-features = false }
parity-scale-codec = { version = "*", default-features = false, features = ["derive"] }
scale-info = { version = "*", default-features = false, features = ["derive"] }
sp-io = { version = "*", default-features = false, features = ["disable_allocator", "disable_oom", "disable_panic_handler"] }
