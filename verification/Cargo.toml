[package]
name = "fibers_http_server"
version = "0.2.0"
edition = "2021"
publish = false

[dependencies]
atomic_immut = "0.1"
bytecodec = "0.4"
factory = "0.1"
fibers = "0.1"
futures = "0.1"
httpcodec = "0.2"
prometrics = "0.1"
slog = "2"
trackable = "1"
url = "2"
