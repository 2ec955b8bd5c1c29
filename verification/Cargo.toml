[package]
name = "sam"
version = "0.1.0"
edition = "2021"
publish = false

[dependencies]
hostname = "=0.4.2"
spidev = "=0.7.1"
postcard = { version = "=1.1.3", features = ["alloc"] }
serde = { version = "=1.0.229", features = ["derive"] }
clap = "=4.6.7"
jeflog = "=0.1.0"
