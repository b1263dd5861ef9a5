[package]
name = "kindara"
version = "0.1.0"
edition = "2021"
publish = false

[dependencies]
Inflector = "=0.11.4"
indefinite = "=0.1.11"
censor = "=0.3.0"
caith = "=4.2.4"
rand = "=0.8.8"
bcrypt = "0.15"
