[package]
name = "vmm_mmio"
version = "0.1.0"
edition = "2021"
publish = false

[dependencies]
kvm-ioctls = "*"
vmm-sys-util = "*"
