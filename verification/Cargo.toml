[package]
name = "normy"
version = "0.1.0"
edition = "2021"
publish = false

[dependencies]
icu_normalizer = "2"
html-escape = "0.2"
memchr = "2"
pulldown-cmark = { version = "0.12", default-features = false }
simdutf8 = "0.1"
smallvec = "1"
thiserror = "2"
