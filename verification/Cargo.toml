[package]
name = "atomic_pool"
version = "1.0.0"
edition = "2021"
publish = false

[dependencies]
portable-atomic = "1"
as-slice = "0.2"
stable_deref_trait = { version = "1", default-features = false }
