[package]
name = "query_core"
version = "0.1.0"
edition = "2021"
publish = false

[dependencies]
arrow = { version = "=59.3.2", default-features = false }
datafusion-common = { version = "=55.2.0", default-features = false }
datafusion-execution = { version = "=55.2.0", default-features = false }
datafusion-expr = { version = "=55.2.0", default-features = false }
datafusion-expr-common = { version = "=55.2.0", default-features = false }
hashbrown = "=0.17.1"
