[package]
name = "tarssh"
version = "0.1.0"
edition = "2021"
publish = false

[dependencies]
env_logger = "0.7"
exitcode = "1.1"
futures = "0.3"
futures-util = "0.3"
hyper = "0.13"
log = "0.4"
privdrop = "*"
rand = "0.7"
rusty-sandbox = "*"
structopt = "0.3"
tokio = { version = "0.2", features = ["full"] }
