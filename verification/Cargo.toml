[package]
name = "ack_escrow"
version = "0.1.0"
edition = "2021"
publish = false

[dependencies]
hashbrown = "=0.14.5"
gstd = "=1.7.1"
gmeta = "=1.7.1"
primitive-types = { version = "0.12", default-features = false }
