[package]
name = "cheetah_matches_relay"
version = "0.1.0"
edition = "2021"
publish = false

[dependencies]
hash32 = "=0.2.1"
heapless = "=0.7.17"
indexmap = "=1.9.3"
rand = "=0.8.8"
