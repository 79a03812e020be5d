[package]
name = "cassandra_server"
version = "0.1.0"
edition = "2021"
publish = false

[dependencies]
byteorder = "1"
num-bigint = "0.4"
num-traits = "0.2"
regex = "1"
serde_json = "1"
thiserror = "*"
