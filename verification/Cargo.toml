[package]
name = "uart_load"
version = "0.1.0"
edition = "2021"
publish = false

[dependencies]
rand_core = "0.6"
array-init = "2"
riscv = "0.7"
spin = "0.9"
lazy_static = "1.4"
nb = "1.0"
embedded-hal = "=1.0.0-alpha.4"
futures = { version = "0.3", default-features = false, features = ["alloc"] }
heapless = "0.7"
