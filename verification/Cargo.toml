[package]
name = "tag_search"
version = "0.1.0"
edition = "2021"
publish = false

[dependencies]
async-graphql = { version = "7", features = ["dynamic-schema"] }
async-graphql-poem = "7"
async-trait = "0.1"
clap = { version = "4", features = ["derive"] }
config = { version = "0.14", default-features = false, features = ["json", "toml", "yaml"] }
futures = "0.3"
peroxide = "*"
poem = "3"
prost = "0.13"
regex = "1"
reqwest = { version = "0.12", default-features = false, features = ["json"] }
schemars = "0.8"
serde = { version = "1", features = ["derive"] }
serde_json = "1"
tokio = { version = "1", features = ["macros", "rt-multi-thread"] }
tonic = { version = "0.12", default-features = false, features = ["channel", "codegen", "prost"] }
