[package]
name = "process_monitor"
version = "0.1.0"
edition = "2021"
publish = false

[dependencies]
anyhow = "1"
atoi = "2"
flume = "0.11"
hashbrown = "0.15"
log = "0.4"
mimalloc = "0.1"
stringzilla = "3"
tklog = "*"
