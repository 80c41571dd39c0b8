[package]
name = "knapsack_cliff"
version = "0.1.0"
edition = "2021"
publish = false

[dependencies]
anyhow = "=1.0.104"
rand = "=0.8.8"
