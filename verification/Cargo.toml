[package]
name = "mojxml"
version = "0.1.0"
edition = "2021"
publish = false

[dependencies]
anyhow = "*"
bytemuck = "=1.25.2"
clap = { version = "*", features = ["derive"] }
crossbeam-channel = "*"
flatgeobuf = { version = "=6.0.1", default-features = false }
geo = "=0.33.1"
geo-types = "=0.7.20"
geozero = { version = "=0.15.1", default-features = false, features = ["with-geo"] }
indicatif = "*"
log = "*"
num_cpus = "*"
proj4rs = "=0.2.0"
roxmltree = "=0.21.1"
simplelog = "*"
tempfile = "*"
thiserror = "*"
zip = { version = "*", default-features = false, features = ["deflate"] }
