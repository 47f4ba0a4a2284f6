[package]
name = "whitenoise_validator"
version = "0.1.0"
edition = "2021"
publish = false

[dependencies]
indexmap = "=1.9.3"
itertools = "=0.9.0"
ndarray = "=0.13.1"
ndarray-stats = "=0.3.0"
noisy_float = "=0.1.15"
ieee754 = "=0.2.6"
serde_json = "=1.0.154"
prost = "=0.6.1"
ffi-support = "=0.4.4"
openssl = "0.10"
rug = "1"
