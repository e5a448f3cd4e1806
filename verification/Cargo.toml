[package]
name = "nullex"
version = "0.1.0"
edition = "2021"
publish = false

[dependencies]
x86_64 = { version = "=0.15.5", default-features = false, features = ["instructions"] }
hashbrown = "=0.17.1"
zerocopy = { version = "=0.8.63", features = ["derive"] }
thiserror = "=2.0.21"
conquer-once = { version = "=0.4.0", default-features = false }
crossbeam-queue = { version = "=0.3.14", default-features = false, features = ["alloc"] }
futures = { version = "=0.3.34", default-features = false, features = ["alloc"] }
ruspiro-mailbox = "=0.4.1"
