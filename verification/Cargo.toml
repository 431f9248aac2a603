[package]
name = "anon"
version = "0.1.0"
edition = "2021"
publish = false

[dependencies]
md-5 = "0.10"
fake = { version = "*", features = ["chrono", "uuid"] }
chrono = "0.4"
image = { version = "0.25", default-features = false, features = ["jpeg", "png"] }
pgrx = { version = "0.12", features = ["pg16"] }
libc = "0.2"
paste = "1"
c_str_macro = "1"

[dev-dependencies]
regex = "1"
