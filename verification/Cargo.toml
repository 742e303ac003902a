[package]
name = "deboa-extras"
version = "0.1.0"
edition = "2021"
publish = false

[dependencies]
http = "=1.5.0"
bytes = "=1.12.1"
flate2 = "=1.1.10"
brotli = "=9.1.1"
rand = "=0.9.5"
mime_typed = "=0.1.7"
deboa = "=0.1.3"
tackle = "=0.1.3"
hyper-body-utils = "=0.1.14"
hyper = "=1.12.0"
futures = "=0.3.34"
pin-project-lite = "=0.2.17"
log = "=0.4.35"
serde = { version = "=1.0.229", features = ["derive"] }
sonic-rs = "=0.5.10"
rmp-serde = "=1.3.1"
serde-xml-rust = "=0.6.0"
serde-saphyr = "=2.0.0"
flexbuffers = "=25.12.19"
ciborium = "=0.2.2"
fory = "=1.7.7"
hickory-resolver = "=0.26.3"
thiserror = "=2.0.21"

[dev-dependencies]
