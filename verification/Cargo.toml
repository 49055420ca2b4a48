[package]
name = "kyber_ntt"
version = "0.1.0"
edition = "2021"
publish = false

[dependencies]
stm32f3 = { version = "0.15", features = ["stm32f303"] }
