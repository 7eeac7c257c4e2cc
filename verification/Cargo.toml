[package]
name = "scheduled_gpt_oracle"
version = "0.1.0"
edition = "2021"
publish = false

[dependencies]
anchor-lang = "0.31"
tuktuk-program = "*"
solana-gpt-oracle = "*"
