[package]
name = "dao_voting"
version = "0.1.0"
edition = "2021"
publish = false

[dependencies]
curve25519-dalek = { version = "4", features = ["rand_core"] }
merlin = "3"
rand = "0.8"
sha3 = "0.10"
sha2 = "0.10"
hex = "0.4"
bellman = { version = "0.14", default-features = false, features = ["groth16"] }
bls12_381 = "0.8"
num-bigint = "0.4"
num-traits = "0.2"
