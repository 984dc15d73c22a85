[package]
name = "dios3"
version = "0.1.0"
edition = "2021"
publish = false

[dependencies]
aws-config = { version = "=1.12.0", features = ["behavior-version-latest"] }
aws-sdk-s3 = "=1.152.0"
# Held back for aws-config 1.12, which does not compile against aws-types 1.7.
aws-types = "=1.6.0"
color-eyre = "=0.6.5"
dioxus = { version = "=0.6.3", default-features = false, features = ["macro", "html", "signals", "hooks", "launch", "router"] }
directories = "=6.0.0"
once_cell = "=1.21.4"
rusqlite = { version = "=0.41.0", features = ["bundled"] }
tokio = { version = "=1.54.1", features = ["rt", "rt-multi-thread", "sync", "macros"] }
