[package]
name = "openapi_kit"
version = "0.1.0"
edition = "2021"
publish = false

[dependencies]
anyhow = "1"
clap = { version = "4", features = ["derive"] }
colored = "*"
convert_case = "*"
handlebars = "*"
indexmap = { version = "2", features = ["serde"] }
openapiv3 = "*"
serde = { version = "1", features = ["derive"] }
serde_yaml = "*"
serde_yml = "*"
syn = { version = "2", features = ["full"] }
tera = { version = "1", default-features = false }
