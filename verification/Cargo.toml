[package]
name = "spacenews"
version = "0.1.0"
edition = "2021"
publish = false

[dependencies]
toml = "*"
urlencoding = "*"
serde_json = "*"
serde = { version = "*", features = ["derive"] }
reqwest = { version = "*", features = ["json"] }
tokio = { version = "*", features = ["macros", "rt-multi-thread"] }
async-trait = "*"
sea-orm-migration = { version = "*", default-features = false }
