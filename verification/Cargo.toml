[package]
name = "astro_mod_integrator"
version = "0.1.0"
edition = "2021"
publish = false

[dependencies]
uuid = { version = "=1.27.0", features = ["v4"] }
unreal_helpers = { version = "=0.1.16", features = ["path"] }
serde_json = "=1.0.151"
