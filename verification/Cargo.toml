[package]
name = "peer_score"
version = "0.1.0"
edition = "2021"
publish = false

[dependencies]
lru_time_cache = "=0.11.11"
byteorder = "=1.5.0"
