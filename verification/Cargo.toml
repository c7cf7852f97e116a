[package]
name = "depcheck_core"
version = "0.1.0"
edition = "2021"
publish = false

[dependencies]
globset = "=0.4.20"
serde_json = "=1.0.140"
serde = { version = "=1.0.219", features = ["derive"] }
ignore = "=0.4.33"
relative-path = "=1.9.3"
num_cpus = "=1.17.0"
eyre = "=0.6.14"
log = "=0.4.34"
env_logger = "=0.10.2"
clap = { version = "=4.6.7", features = ["derive"] }
swc_common = { version = "0.33", features = ["tty-emitter"] }
swc_ecma_ast = "0.110"
swc_ecma_parser = "0.141"
swc_ecma_dep_graph = "=0.113.22"
