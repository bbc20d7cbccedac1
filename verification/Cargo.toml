[package]
name = "rs_script"
version = "0.1.0"
edition = "2021"
publish = false

[dependencies]
regex = "=1.13.1"
toml = "=1.1.8"
cargo_toml = "=1.0.1"
syn = { version = "=2.0.119", features = ["full", "visit", "extra-traits"] }
clap = { version = "=4.6.7", features = ["derive"] }
reedline = "=0.52.1"
nu-ansi-term = "=0.50.3"
lazy_static = "=1.5.1"
log = "=0.4.34"
env_logger = "=0.11.11"
strum = { version = "=0.28.0", features = ["derive"] }
ibig = "=0.3.6"
bitflags = "=2.13.2"
ratatui = "=0.28.1"
tui-textarea = "=0.6.1"
crokey = "=1.1.2"
scopeguard = "=1.2.0"
