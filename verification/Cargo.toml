[package]
name = "arma_pipeline"
version = "0.1.0"
edition = "2021"
publish = false

[dependencies]
chrono = "0.4"
csv = "1"
indicatif = "0.17"
nalgebra = "0.33"
plotters = "0.3"
rustfft = "6"
serde = { version = "1", features = ["derive"] }
tokio = { version = "1", features = ["macros", "rt-multi-thread"] }
yahoo_finance_api = "*"
