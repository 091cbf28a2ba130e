[package]
name = "snarkpack"
version = "0.1.0"
edition = "2021"
publish = false

[dependencies]
ark-bn254 = "=0.3.0"
ark-ec = "=0.3.0"
ark-ff = "=0.3.0"
ark-groth16 = "=0.3.0"
ark-poly = "=0.3.0"
ark-serialize = "=0.3.0"
ark-std = "=0.3.0"
bellman_ce = "0.7"
rayon = "1"
serde = { version = "1", features = ["derive"] }

[dev-dependencies]
ark-relations = "=0.3.0"
