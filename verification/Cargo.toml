[package]
name = "vaultwarden_scim"
version = "0.1.0"
edition = "2021"
publish = false

[dependencies]
chrono = { version = "=0.4.45", default-features = false, features = ["clock", "std"] }
ctor = "=1.0.13"
data-encoding = "=2.11.1"
derive_more = { version = "=2.1.1", features = ["display"] }
diesel = { version = "=2.3.14", default-features = false, features = ["postgres_backend", "mysql_backend", "sqlite", "chrono", "with-deprecated"] }
governor = "=0.10.4"
ring = "=0.17.14"
rocket = { version = "=0.5.2", features = ["json"] }
rustls = { version = "=0.23.46", default-features = false, features = ["ring", "std"] }
serde = { version = "=1.0.229", features = ["derive"] }
serde_json = "=1.0.154"
tokio = { version = "=1.54.1", features = ["sync"] }
