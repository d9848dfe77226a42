[package]
name = "vm_bootstrap"
version = "0.1.0"
edition = "2021"
publish = false

[dependencies]
multiboot2 = "*"
linked_list_allocator = "*"
