[package]
name = "blast"
version = "0.1.0"
edition = "2021"
publish = false

[dependencies]
bigdecimal = "=0.4.11"
clap = { version = "=4.6.7", features = ["cargo", "derive"] }
cranelift = "=0.123.20"
cranelift-module = "=0.123.20"
cranelift-object = "=0.123.20"
indexmap = "=2.14.2"
log = "=0.4.35"
num-bigint = "=0.4.8"
num-traits = "=0.2.19"
stderrlog = "=0.6.0"
target-lexicon = "=0.13.5"
