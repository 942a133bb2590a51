[package]
name = "vm_snapshot"
version = "0.1.0"
edition = "2021"
publish = false

[dependencies]
anyhow = "=1.0.104"
futures = "=0.3.34"
kvm-bindings = { version = "=0.14.2", features = ["fam-wrappers"] }
kvm-ioctls = "=0.25.1"
lazy_static = "=1.5.1"
libc = "=0.2.191"
nix = { version = "=0.26.4", features = ["sched", "user", "fs"] }
serde_json = "=1.0.154"
sha2 = "=0.10.9"
thiserror = "=1.0.69"
tokio = { version = "=1.54.1", features = ["full"] }
