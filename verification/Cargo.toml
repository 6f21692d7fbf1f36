[package]
name = "c2pa_assets"
version = "0.1.0"
edition = "2021"
publish = false

[dependencies]
asn1-rs = "0.6"
async-trait = "0.1"
atree = "0.5"
byteorder = "1.5"
byteordered = "0.6"
chrono = "0.4"
ciborium = "0.2"
conv = "0.3"
coset = "0.3"
fonttools = "*"
instant = "0.1"
log = "0.4"
nom = "7"
serde_bytes = "0.11"
serde_cbor = "0.11"
tempfile = "3"
thiserror = "1"
uuid = { version = "1", features = ["v4"] }
x509-certificate = "0.23"
x509-parser = "0.16"
