[package]
name = "yarte"
version = "0.1.0"
edition = "2021"
publish = false

[dependencies]
memchr = "=2.8.3"
nom = "=4.2.3"
syn = { version = "=0.15.44", default-features = false, features = ["derive", "parsing", "printing", "clone-impls", "full", "extra-traits"] }
quote = { version = "=0.6.13", default-features = false }
proc-macro2 = { version = "=0.4.30", default-features = false }
v_htmlescape = "=0.17.0"
mime_guess = "=2.0.5"
toml = "=0.5.11"
