[package]
name = "contest_scaffold"
version = "0.1.0"
edition = "2021"
publish = false

[dependencies]
clap = "=4.6.7"
dirs = "=7.0.0"
reqwest = { version = "=0.13.5", default-features = false, features = ["cookies", "form"] }
rpassword = "=7.5.4"
scraper = "=0.27.0"
tokio = { version = "=1.53.2", features = ["macros", "rt-multi-thread"] }
