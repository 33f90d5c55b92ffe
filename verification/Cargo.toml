[package]
name = "subgraph_schema"
version = "0.1.0"
edition = "2021"
publish = false

[dependencies]
graphql-parser = "*"
serde = { version = "*", features = ["derive"] }
thiserror = "*"
anyhow = "*"
