[package]
name = "gpgme-sq"
version = "0.1.0"
edition = "2021"
publish = false

[dependencies]
libc = "0.2"
sequoia-openpgp = { version = "2", default-features = false, features = ["crypto-rust", "allow-experimental-crypto", "allow-variable-time-crypto", "compression"] }
