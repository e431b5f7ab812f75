[package]
name = "illusio"
version = "0.1.0"
edition = "2021"
publish = false

[dependencies]
cranelift = "=0.135.5"
cranelift-jit = "=0.135.5"
cranelift-module = "=0.135.5"
codespan-reporting = "*"
colored = "*"
