[package]
name = "game_client"
version = "0.1.0"
edition = "2021"
publish = false

[dependencies]
zerocopy = { version = "0.8", features = ["derive"] }
zerocopy-derive = "0.8"
hecs = "0.10"
fnv = "1"
wasm-bindgen = "0.2"
egui = { version = "0.31", default-features = false }
rouille = "3"
notify = "6"
glob = "0.3"
