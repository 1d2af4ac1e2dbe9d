[package]
name = "ik_llama_cpp_2"
version = "0.1.0"
edition = "2021"
publish = false

[dependencies]
encoding_rs = "0.8"
thiserror = "1"
tracing = "0.1"
