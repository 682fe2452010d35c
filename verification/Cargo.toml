[package]
name = "nonsense"
version = "0.1.0"
edition = "2021"
publish = false

[dependencies]
markov = "1"
regex = "1"
serenity = "0.11"
tokio = { version = "1", features = ["macros", "rt-multi-thread"] }
