[package]
name = "hotspot_onboarding"
version = "0.1.0"
edition = "2021"
publish = false

[dependencies]
anchor-lang = "=0.31.2"
anchor-spl = { version = "=0.31.2", default-features = false, features = ["token", "associated_token", "mint"] }
mpl-bubblegum = "=4.0.0"
spl-account-compression = { version = "=1.0.0", features = ["cpi"] }

[dev-dependencies]
spl-concurrent-merkle-tree = "=1.0.0"
