[package]
name = "ricer"
version = "0.1.0"
edition = "2021"
publish = false

[dependencies]
toml_edit = "0.22"
clap = { version = "4", features = ["derive"] }
clap-verbosity-flag = "2"
directories = "5"
env_logger = "0.11"
log = "0.4"
minus = { version = "5", features = ["static_output"] }
run_script = "0.10"
shellexpand = "3"
mkdirp = "1"
anyhow = "1"
thiserror = "1"
