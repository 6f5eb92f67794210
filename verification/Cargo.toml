[package]
name = "zaminos"
version = "0.1.0"
edition = "2021"
publish = false

[dependencies]
font8x8 = { version = "*", default-features = false, features = ["unicode"] }
aarch64-cpu = "*"
tock-registers = "*"
linked_list_allocator = "*"
virtio-drivers = "*"
