[package]
name = "mjolnir_backend"
version = "0.1.0"
edition = "2021"
publish = false

[dependencies]
zstd = "=0.13.4"
scuffle-h265 = "=0.2.2"
png = "=0.18.1"
tiff = "=0.11.3"
serde = { version = "=1.0.229", features = ["derive"] }
serde_json = "=1.0.154"
clap = { version = "=4.6.7", features = ["derive"] }
crossbeam = "=0.8.5"
if-addrs = "=0.15.0"
rand = "=0.10.3"
ctrlc = "=3.5.2"
anyhow = "=1.0.104"
aravis = "=0.11.1"
nalgebra = "=0.34.2"
levenberg-marquardt = "=0.15.0"
futures = "=0.3.34"
serialport = "=4.10.1"
