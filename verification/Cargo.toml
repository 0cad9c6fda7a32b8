[package]
name = "lunch"
version = "0.1.0"
edition = "2021"
publish = false

[dependencies]
clap = "=4.6.7"
env_logger = "=0.11.11"
fst = "=0.3.5"
fst-levenshtein = "=0.3.0"
log = "=0.4.34"
users = "=0.11.0"
xdg = "=3.0.0"
