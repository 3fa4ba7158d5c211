[package]
name = "rudis"
version = "0.1.0"
edition = "2021"
publish = false

[dependencies]
bytes = "1"
crc16 = "0.4"
flume = "0.11"
fxhash = "0.2"
hashbrown = "0.15"
libc = "0.2"
monoio = "0.2"
smallvec = "1"
