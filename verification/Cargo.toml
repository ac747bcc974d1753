[package]
name = "nix_autobuild"
version = "0.1.0"
edition = "2021"
publish = false

[dependencies]
serde_json = { version = "=1.0.154", features = ["preserve_order"] }
num_cpus = "=1.17.0"
serde = { version = "=1.0.229", features = ["derive"] }
rayon = "=1.12.0"
git2 = { version = "=0.21.0", features = ["https"] }
actix-web = { version = "=4.18.1", default-features = false, features = ["macros"] }
actix-files = "=0.6.10"
