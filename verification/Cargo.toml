[package]
name = "ascot_gateway"
version = "0.1.0"
edition = "2021"
publish = false

[dependencies]
mdns-sd = { version = "=0.21.6", default-features = false }
reqwest = { version = "=0.13.5", default-features = false, features = ["json"] }
rocket = "=0.5.2"
rocket_db_pools = { version = "=0.2.0", features = ["sqlx_sqlite"] }
rocket_dyn_templates = { version = "=0.2.0", features = ["handlebars"] }
serde = { version = "=1.0.229", features = ["derive"] }
tracing = "=0.1.44"
tracing-subscriber = { version = "=0.3.23", default-features = false, features = ["fmt"] }
