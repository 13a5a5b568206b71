[package]
name = "precompile_core"
version = "0.1.0"
edition = "2021"
publish = false

[dependencies]
alloy = { version = "1", default-features = false, features = ["std", "serde", "rand", "sol-types", "dyn-abi", "genesis", "consensus", "network", "signer-local", "signer-mnemonic"] }
const-hex = "1"
commonware-codec = "*"
syn = { version = "2", features = ["full"] }
quote = "1"
proc-macro2 = "1"
serde = { version = "1", features = ["derive"] }
serde_json = "1"
toml = "*"
eyre = "0.6"
clap = { version = "4", features = ["derive"] }
rand = "0.9"
rand_distr = "0.5"
rayon = "1"
indicatif = "*"
core_affinity = "*"
rlimit = "*"
governor = "*"
tokio = { version = "1", features = ["rt", "time"] }
itertools = "*"
