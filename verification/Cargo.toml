[package]
name = "procurve_cli"
version = "0.1.0"
edition = "2021"
publish = false

[dependencies]
scraper = "=0.27.0"
reqwest = { version = "=0.13.5", default-features = false, features = ["blocking", "cookies", "form"] }
clap = "=3.2.25"
prettytable-rs = "=0.10.0"
anyhow = "=1.0.104"
log = "=0.4.34"
env_logger = "=0.11.11"
