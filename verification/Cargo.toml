[package]
name = "wt_backend"
version = "0.1.0"
edition = "2021"
publish = false

[dependencies]
regex = "=1.13.1"
rand = "=0.8.8"
md5 = "=0.7.0"
seahash = "=4.1.0"
percent-encoding = "=2.3.2"
actix-web = "=4.18.1"
actix-cors = "=0.6.5"
diesel = { version = "=1.4.8", features = ["postgres", "r2d2"] }
diesel_migrations = "=1.4.0"
dotenv = "=0.15.0"
serde = { version = "=1.0.229", features = ["derive"] }
serde_repr = "=0.1.21"
