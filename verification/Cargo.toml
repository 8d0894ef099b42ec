[package]
name = "filemap"
version = "1.0.0"
edition = "2021"
publish = false

[dependencies]
regex = "1"
clap = "2"
log = "0.4"
log4rs = { version = "1", default-features = false, features = ["console_appender", "pattern_encoder"] }
error-chain = { version = "0.12", default-features = false }

[dev-dependencies]
rand = "0.8"
