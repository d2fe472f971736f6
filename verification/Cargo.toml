[package]
name = "sheetplan"
version = "0.1.0"
edition = "2021"
publish = false

[dependencies]
actix-cors = "=0.7.2"
actix-web = "=4.15.0"
async-trait = "=0.1.92"
dotenv = "=0.15.0"
google-sheets4 = { version = "=7.0.0", features = ["yup-oauth2-service-account"] }
hyper-rustls = "=0.27.10"
lazy_static = "=1.5.1"
rustls = "=0.23.45"
serde = { version = "=1.0.229", features = ["derive"] }
serde_json = "=1.0.151"
