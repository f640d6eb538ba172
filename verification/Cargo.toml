[package]
name = "plonk"
version = "0.1.0"
edition = "2021"
publish = false

[dependencies]
cargo_metadata = "*"
notify = "*"
notify-debouncer-mini = "*"
rustc-demangle = "*"
