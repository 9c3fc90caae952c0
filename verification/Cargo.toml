[package]
name = "resolvo_rpm"
version = "0.1.0"
edition = "2021"
publish = false

[dependencies]
resolvo = "=0.10.3"
rpm-version = "=0.5.1"
rpmrepo_metadata = "=0.7.0"
url = "=2.5.8"
reqwest = { version = "=0.12.28", default-features = false, features = ["blocking", "rustls-tls"] }
thiserror = "=2.0.21"
clap = { version = "=4.6.7", features = ["derive"] }
tracing-subscriber = "=0.3.23"
