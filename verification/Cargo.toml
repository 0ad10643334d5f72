[package]
name = "vegvesen_lookup"
version = "0.1.0"
edition = "2021"
publish = false

[dependencies]
select = "*"
hyper = "0.10"
iron = "*"
router = "*"
regex = "*"
log = "*"
env_logger = "*"
