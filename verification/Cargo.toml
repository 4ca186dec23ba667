[package]
name = "gitcore"
version = "0.1.0"
edition = "2021"
publish = false

[dependencies]
anyhow = "=1.0.104"
arc-swap = "=1.9.3"
bstr = "=1.13.1"
crossterm = { version = "=0.29.0", features = ["osc52"] }
gix-command = "=0.10.1"
gix-date = "=0.16.0"
gix-diff = { version = "=0.67.1", features = ["blob"] }
gix-fs = "=0.22.1"
gix-glob = "=0.27.1"
gix-hash = { version = "=0.26.2", features = ["sha1", "sha256"] }
gix-object = "=0.64.1"
gix-path = "=0.12.6"
gix-quote = "=0.8.0"
gix-ref = "=0.67.1"
gix-tempfile = "=24.0.0"
gix-zlib = "=0.2.0"
jiff = "=0.2.39"
parking_lot = "=0.13.0"
ratatui = "=0.30.2"
thiserror = "=2.0.21"
