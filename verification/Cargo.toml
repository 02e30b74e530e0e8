[package]
name = "osc52"
version = "0.1.0"
edition = "2021"
publish = false

[dependencies]
base64 = "=0.23.1"
clap = { version = "=4.6.7", features = ["derive"] }
libc = "=0.2.190"
mio = { version = "=1.2.4", features = ["os-poll", "os-ext"] }
ncurses = "=5.101.0"
