[package]
name = "stargazer_report"
version = "0.1.0"
edition = "2021"
publish = false

[dependencies]
clap = { version = "=4.6.7", features = ["derive"] }
octocrab = "=0.47.1"
spinners = "=4.2.0"
termimad = "=0.35.5"
tokio = { version = "=1.53.2", features = ["macros", "rt-multi-thread"] }
