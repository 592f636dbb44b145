[package]
name = "cdk_payment_processors"
version = "0.1.0"
edition = "2021"
publish = false

[dependencies]
anyhow = "=1.0.104"
async-trait = "=0.1.92"
base64 = "=0.22.1"
cdk-common = { version = "=0.18.0-rc.3", default-features = false, features = ["grpc", "mint"] }
figment = { version = "0.10", default-features = false, features = ["env", "toml"] }
futures = { version = "=0.3.34", default-features = false, features = ["std"] }
hex = "=0.4.3"
lexe = { version = "=0.1.27", default-features = false, features = ["unstable"] }
lexe-api-core = { version = "=0.1.27", default-features = false }
lightning = { version = "=0.2.7", default-features = false, features = ["std"] }
lnbits-rs = { version = "=0.9.2", default-features = false }
redb = "=3.1.3"
rustls = { version = "=0.23.46", default-features = false, features = ["ring", "std"] }
serde = { version = "=1.0.229", features = ["derive"] }
serde_json = "=1.0.154"
thiserror = "=2.0.21"
tokio = { version = "=1.54.1", features = ["macros", "rt-multi-thread", "signal", "sync", "time"] }
tokio-stream = "=0.1.19"
tokio-util = "=0.7.20"
tonic = { version = "=0.14.9", features = ["tls-ring"] }
tracing = { version = "=0.1.44", default-features = false }
tracing-subscriber = { version = "0.3", default-features = false, features = ["env-filter", "fmt"] }

[dev-dependencies]
tempfile = "=3.27.0"
