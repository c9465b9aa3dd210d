[package]
name = "enclave_runner"
version = "0.1.0"
edition = "2021"
publish = false

[dependencies]
uuid = "=1.29.0"
anyhow = "=1.0.104"
serde = { version = "=1.0.229", features = ["derive"] }
figment = { version = "=0.10.19", features = ["yaml", "env"] }
slog = "=2.8.2"
sloggers = { version = "=2.2.0", default-features = false, features = ["json"] }
time = "=0.3.55"
tokio = { version = "=1.54.1", features = ["full"] }
tokio-stream = "=0.1.19"
sqlx = { version = "=0.9.0", default-features = false, features = ["postgres", "runtime-tokio", "uuid", "time"] }
prost = "=0.14.4"
tonic = "=0.14.9"
redis = { version = "=1.8.1", default-features = false }
asynq = "=0.1.8"
reqwest = { version = "=0.13.5", default-features = false }
bollard = "=0.21.1"
wasmtime = { version = "=47.0.4", default-features = false, features = ["cranelift", "pooling-allocator", "component-model", "async", "runtime", "std"] }
wasmtime-wasi = "=47.0.4"
