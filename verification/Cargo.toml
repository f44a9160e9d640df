[package]
name = "duco2mqtt"
version = "0.1.0"
edition = "2021"
publish = false

[dependencies]
serde_json = "*"
serde = { version = "*", features = ["derive"] }
log = "*"
env_logger = "*"
clap = { version = "*", features = ["derive", "env"] }
clap-verbosity-flag = "*"
tokio = { version = "*", features = ["macros", "rt", "time"] }
reqwest = { version = "*", default-features = false, features = ["rustls-tls"] }
rumqttc = "*"
bytes = "*"
