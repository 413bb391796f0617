[package]
name = "cerniera"
version = "0.1.0"
edition = "2021"
publish = false

[dependencies]
bytes = "1"
crc32fast = "1"
futures-core = "0.3"
pin-project-lite = "0.2"
jiff = "0.2"

[dev-dependencies]
zip = { version = "*", default-features = false, features = ["deflate"] }
flate2 = "1"
futures-util = "0.3"
