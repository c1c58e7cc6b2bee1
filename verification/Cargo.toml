[package]
name = "ommx"
version = "0.1.0"
edition = "2021"
publish = false

[dependencies]
oci-spec = { version = "=0.10.0", default-features = false, features = ["distribution"] }
oci-client = { version = "=0.18.0", default-features = false, features = ["rustls-tls-no-provider"] }
docker_credential = "=1.4.0"
chrono = "=0.4.45"
anyhow = "=1.0.104"
petgraph = { version = "=0.8.3", default-features = false, features = ["graphmap"] }
tokio = { version = "=1.54.1", features = ["rt"] }
futures-util = "=0.3.34"
http = "=1.5.0"
