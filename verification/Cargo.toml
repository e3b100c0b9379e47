[package]
name = "hyper_proto"
version = "0.1.0"
edition = "2021"
publish = false

[dependencies]
bytes = "=1.12.1"
http = "=1.5.0"
httparse = "=1.10.1"
unicase = "=2.10.0"
h2 = "=0.1.26"
futures = "=0.1.31"
httpdate = "1"
