[package]
name = "iroh-mainline-address-lookup-blinded"
version = "0.1.0"
edition = "2021"
publish = false

[dependencies]
chacha20poly1305 = "0.10"
curve25519-dalek = "4"
ed25519-dalek = { version = "2", features = ["hazmat"] }
iroh = "*"
n0-future = "*"
n0-mainline = "*"
postcard = { version = "1", features = ["use-std"] }
serde = { version = "1", features = ["derive"] }
sha2 = "0.10"
thiserror = "2"
tokio = { version = "1", features = ["rt", "macros", "sync", "time"] }
tracing = "0.1"
