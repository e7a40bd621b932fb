[package]
name = "ossfs"
version = "0.1.0"
edition = "2021"
publish = false

[dependencies]
anyhow = "=1.0.104"
aws-config = { version = "=1.13.0", default-features = false, features = ["behavior-version-latest", "credentials-process", "default-https-client", "rt-tokio"] }
aws-sdk-s3 = { version = "=1.157.0", default-features = false, features = ["behavior-version-latest", "default-https-client", "http-1x", "rt-tokio"] }
aws-smithy-runtime-api = "=1.19.2"
aws-smithy-types = "=1.9.1"
base64 = "=0.22.1"
chrono = { version = "=0.4.45", default-features = false, features = ["std", "clock"] }
libc = "=0.2.191"
md-5 = "=0.10.6"
tokio = { version = "=1.54.1", features = ["fs", "io-util", "macros", "net", "rt-multi-thread", "sync", "time"] }
tracing = "=0.1.44"
windows-sys = { version = "=0.59.0", features = ["Win32_Foundation", "Win32_Storage_FileSystem"] }
