[package]
name = "lizhisim"
version = "0.1.0"
edition = "2021"
publish = false

[dependencies]
anyhow = "1"
arraydeque = "0.5"
arrayvec = "0.7"
bitvec = "1"
hashbrown = "0.15"
mt19937 = "2"
rand = "0.8"
thiserror = "1"
