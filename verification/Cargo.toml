[package]
name = "r1cs_bench"
version = "0.1.0"
edition = "2021"
publish = false

[dependencies]
ark-ff = "0.3"
ark-std = "0.3"
ark-bls12-381 = "0.3"
ark-relations = "0.3"
ark-marlin = "0.3"
ark-poly = "0.3"
ark-poly-commit = "0.3"
ark-r1cs-std = "0.3"
arkworks-native-gadgets = "*"
arkworks-r1cs-gadgets = "*"
arkworks-utils = "*"
blake2 = "0.9"
clap = { version = "4", features = ["derive"] }
colored = "*"
num-bigint = "0.4"
