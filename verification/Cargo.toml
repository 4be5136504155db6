[package]
name = "scan_gate"
version = "0.1.0"
edition = "2021"
publish = false

[dependencies]
serde = "=1.0.229"
sha2 = "0.10"
serde_json = "=1.0.151"
serde_yaml = "=0.9.34"
reqwest = { version = "=0.12.28", default-features = false }
futures = "=0.3.34"
argparse = "=0.2.2"
prettytable-rs = "=0.10.0"
mongodb = "=2.8.2"
actix-web = { version = "=4.15.0", default-features = false, features = ["macros"] }
