[package]
name = "vk_commitments"
version = "0.1.0"
edition = "2021"
publish = false

[dependencies]
anyhow = "*"
once_cell = "*"
tracing = "*"
zkevm_test_harness = "*"
