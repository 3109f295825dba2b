[package]
name = "quic_oack"
version = "0.1.0"
edition = "2021"
publish = false

[dependencies]
url = "1"
clap = { version = "4", features = ["derive"] }
mio = { version = "0.8", features = ["net", "os-poll"] }
ring = "0.17"
log = "0.4"
env_logger = "0.10"
jsonseq = "*"
serde_json = "1"
libc = "0.2"
once_cell = "1"
winapi = { version = "0.3", features = ["wincrypt"] }
boring = "4"
foreign-types-shared = "0.3"
