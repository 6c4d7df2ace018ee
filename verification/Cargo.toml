[package]
name = "ziofa"
version = "0.1.0"
edition = "2021"
publish = false

[dependencies]
symbolic-demangle = { version = "=12.18.3", default-features = false, features = ["cpp", "msvc", "rust"] }
symbolic-common = "=12.18.3"
crossbeam = "=0.8.5"
aya = "=0.13.1"
aya-log = "=0.2.1"
bytemuck = { version = "=1.25.2", features = ["derive"] }
tokio = { version = "=1.54.1", features = ["full"] }
ractor = "=0.16.5"
async-broadcast = "=0.7.2"
tokio-stream = "=0.1.19"
async-walkdir = "=2.2.0"
tokio-process-stream = "=0.4.1"
flume = "=0.11.1"
futures = "=0.3.34"
object = "=0.40.0"
procfs = "=0.18.0"
serde = { version = "=1.0.229", features = ["derive"] }
serde_json = "=1.0.154"
thiserror = "=2.0.21"
tracing = "=0.1.44"
tracing-subscriber = { version = "=0.3.23", features = ["env-filter"] }
clap = { version = "=4.6.7", features = ["derive"] }
libc = "=0.2.191"
tantivy = { version = "=0.27.0", features = ["zstd-compression"] }
ringbuf = "=0.6.0"
