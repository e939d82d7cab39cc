[package]
name = "svudko"
version = "0.1.0"
edition = "2021"
publish = false

[dependencies]
data-encoding = "=2.11.1"
sha2 = "=0.10.9"
x509-parser = "=0.16.0"
uuid = { version = "=1.29.0", features = ["v4"] }
rkyv = "=0.8.18"
tokio = { version = "=1.54.1", features = ["full"] }
quinn = "=0.11.12"
rcgen = { version = "=0.14.10", features = ["x509-parser"] }
mdns-sd = "=0.21.7"
anyhow = "=1.0.104"
thiserror = "=2.0.21"
tracing = "=0.1.44"
tracing-subscriber = { version = "=0.3.23", features = ["env-filter"] }
dirs = "=7.0.0"
gethostname = "=1.1.0"
clap = { version = "=4.6.7", features = ["derive"] }
sqlx = { version = "=0.8.6", default-features = false, features = ["sqlite", "runtime-tokio"] }
