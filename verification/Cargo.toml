[package]
name = "task_automation"
version = "0.1.0"
edition = "2021"
publish = false

[dependencies]
regex = "1"
