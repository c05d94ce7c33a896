[package]
name = "gurkle"
version = "0.3.0"
edition = "2021"
publish = false

[dependencies]
async-stream = "=0.3.6"
async-trait = "=0.1.92"
futures = "=0.3.34"
futures-util = { version = "=0.3.34", features = ["sink"] }
graphql-introspection-query = "=0.3.0"
graphql-parser = "=0.2.3"
heck = "=0.3.3"
proc-macro2 = "=1.0.107"
quote = "=1.0.47"
reqwest = { version = "=0.11.27", default-features = false, features = ["json"] }
serde = { version = "=1.0.229", features = ["derive"] }
serde_json = "=1.0.154"
thiserror = "=1.0.69"
tokio = { version = "=1.54.1", features = ["macros", "rt", "rt-multi-thread", "sync", "time"] }
tokio-tungstenite = "=0.15.0"
tracing = "=0.1.44"
tracing-subscriber = "=0.3.23"
tungstenite = "=0.14.0"
