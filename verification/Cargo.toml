[package]
name = "mikanos_kernel"
version = "0.1.0"
edition = "2021"
publish = false

[dependencies]
arrayvec = { version = "0.7", default-features = false }
arrform = "0.1"
bit_field = "0.10"
conquer-once = { version = "0.4", default-features = false }
crossbeam-queue = { version = "0.3", default-features = false, features = ["alloc"] }
modular-bitfield = "0.11"
spin = "0.9"
volatile = "0.4"
x86_64 = { version = "0.15", default-features = false, features = ["instructions"] }
