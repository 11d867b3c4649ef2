[package]
name = "octerm"
version = "0.1.0"
edition = "2021"
publish = false

[dependencies]
bytes = "*"
unicode-width = "*"
mio = { version = "*", features = ["os-poll", "net"] }
slog = "*"
slog-term = "*"
slog-async = "*"
number_prefix = "*"
