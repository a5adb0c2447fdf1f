[package]
name = "schema_decoder"
version = "0.1.0"
edition = "2021"
publish = false

[dependencies]
sha2 = "0.10"
linked_hash_set = "0.1"
async-graphql-parser = "5.0"
async-graphql-value = "5.0"
proc-macro2 = "1.0"
quote = "1.0"
syn = "2.0"
serde = { version = "1.0", features = ["derive"] }
serde_json = "1.0"
bincode = "1.3"
