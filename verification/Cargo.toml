[package]
name = "aquic"
version = "0.1.0"
edition = "2021"
publish = false

[dependencies]
aead = "0.5"
ahash = "0.8"
bytes = "1"
digest = { version = "0.10", features = ["mac"] }
domain = { version = "*", features = ["std"] }
foldhash = "*"
futures = "0.3"
hashlink = "*"
hybrid-array = "0.4"
mini-moka = "0.10"
proc-macro2 = "1"
quiche = "*"
quinn-proto = { version = "0.11", default-features = false, features = ["rustls-ring"] }
quote = "1"
rand = "0.10"
rustls = { version = "0.23", default-features = false, features = ["std", "ring"] }
slab = "0.4"
slotmap = "1"
smallvec = "1"
syn = { version = "2", features = ["full"] }
tracing = "0.1"
typenum = "1"
uuid = "1"
