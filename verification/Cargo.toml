[package]
name = "virtio_net"
version = "0.1.0"
edition = "2021"
publish = false

[dependencies]
libc = "=0.2.191"
vm-memory = { version = "=0.4.0", features = ["backend-mmap"] }
