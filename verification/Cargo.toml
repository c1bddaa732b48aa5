[package]
name = "rend3"
version = "0.1.0"
edition = "2021"
publish = false

[dependencies]
wgpu = "=0.17.2"
flume = "=0.12.0"
futures = "=0.3.34"
profiling = "=1.0.18"
tracing = "=0.1.44"
tracing-futures = "=0.2.5"
