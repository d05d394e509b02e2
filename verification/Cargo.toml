[package]
name = "fedimint_server"
version = "0.1.0"
edition = "2021"
publish = false

[dependencies]
bitcoin = "0.32"
bs58 = "0.5"
hex = "0.4"
rand = "0.8"
rcgen = { version = "0.13", default-features = false, features = ["crypto", "ring"] }
secp256k1 = { version = "0.29", features = ["rand"] }
