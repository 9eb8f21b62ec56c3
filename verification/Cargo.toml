[package]
name = "expressive"
version = "0.1.0"
edition = "2021"

[dependencies]
bigdecimal = "=0.4.11"
num-bigint = "=0.4.8"
rustc_apfloat = "=0.2.3"
thiserror = "=2.0.21"
