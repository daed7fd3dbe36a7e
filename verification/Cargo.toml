[package]
name = "heffalump_conduit"
version = "0.1.0"
edition = "2021"
publish = false

[dependencies]
megalodon = "*"
tokio = { version = "*", features = ["rt", "time", "macros"] }
serde = { version = "*", features = ["derive"] }
serde_json = "*"
log = "*"
simplelog = "*"
html2text = "=0.6.0"
http = "*"
open = "*"
