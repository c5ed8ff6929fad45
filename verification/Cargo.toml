[package]
name = "gpu_wddm"
version = "0.1.0"
edition = "2021"
publish = false

[dependencies]
winresult = "=0.1.3"
spin = "=0.12.3"
microseh = "=1.2.0"
zerocopy = { version = "=0.8.63", features = ["derive"] }
