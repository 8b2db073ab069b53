[package]
name = "amm_pinocchio"
version = "0.1.0"
edition = "2021"
publish = false

[dependencies]
pinocchio = "=0.8.4"
pinocchio-system = "=0.2.3"
pinocchio-token = "=0.3.0"

[dev-dependencies]
bytemuck = "=1.25.2"
