[package]
name = "dnguyen_blog"
version = "0.1.0"
edition = "2021"
publish = false

[dependencies]
pulldown-cmark = "*"
ammonia = "*"
chrono = { version = "*", features = ["serde"] }
serde = { version = "*", features = ["derive"] }
rocket = { version = "*", features = ["json"] }
rocket_dyn_templates = { version = "*", features = ["handlebars"] }
rocket_sync_db_pools = { version = "*", features = ["diesel_postgres_pool"] }
diesel = { version = "*", features = ["postgres", "chrono"] }
pandoc = "*"
tokio = { version = "*", features = ["rt", "macros"] }
tokio-postgres = "*"
