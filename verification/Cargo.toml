[package]
name = "kitties"
version = "0.1.0"
edition = "2021"
publish = false

[dependencies]
frame-support = "=2.0.1"
frame-system = "=2.0.1"
pallet-balances = "=2.0.1"
pallet-randomness-collective-flip = "=2.0.1"
sp-runtime = "=2.0.1"
substrate-bip39 = "=0.4.2"
syn = "=1.0.58"
