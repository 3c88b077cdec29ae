[package]
name = "simpleweb"
version = "0.1.0"
edition = "2021"
publish = false

[dependencies]
env_logger = "0.11"
futures = "0.3"
heapless = "=0.8.0"
io-uring = "=0.6.4"
log = "=0.4.34"
mio = { version = "=1.2.4", features = ["os-poll", "net"] }
num_cpus = "=1.17.0"
ring = "=0.17.14"
rustls = { version = "=0.23.46", default-features = false, features = ["ring", "std", "tls12"] }
rustls-pemfile = "=2.2.0"
slab = "=0.4.12"
socket2 = "=0.5.10"
thiserror = "=1.0.69"
