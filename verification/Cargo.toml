[package]
name = "river"
version = "0.5.0"
edition = "2021"
publish = false

[dependencies]
async-trait = "=0.1.92"
cidr = "=0.2.3"
clap = { version = "=4.6.7", features = ["derive"] }
concread = "=0.5.10"
futures-util = "=0.3.34"
http = "=1.5.0"
kdl = "=4.7.1"
leaky-bucket = "=1.1.2"
log = "=0.4.34"
miette = "=5.10.0"
pingora = "=0.3.0"
pingora-core = "=0.3.0"
pingora-http = "=0.3.0"
pingora-ketama = "=0.3.0"
pingora-load-balancing = "=0.3.0"
pingora-proxy = "=0.3.0"
rand = "=0.8.8"
regex = "=1.13.1"
serde = { version = "=1.0.229", features = ["derive"] }
thiserror = "=1.0.69"
toml = "=0.8.23"
tracing = "=0.1.44"
tracing-subscriber = "=0.3.23"
