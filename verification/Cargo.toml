[package]
name = "tandem_client"
version = "0.1.0"
edition = "2021"
publish = false

[dependencies]
base64 = "=0.22.1"
serde = { version = "=1.0.229", features = ["derive"] }
serde_json = "=1.0.154"
image = { version = "=0.25.10", default-features = false, features = ["jpeg"] }
tokio = { version = "=1.54.1", features = ["rt-multi-thread", "net", "time", "macros", "sync"] }
tokio-tungstenite = "=0.26.2"
futures-util = { version = "=0.3.34", features = ["sink"] }
tracing = "=0.1.44"
tracing-subscriber = { version = "=0.3.23", features = ["env-filter", "fmt"] }
tracing-appender = "=0.2.5"
dirs = "=6.0.0"
zbus = "=5.19.0"
enigo = "=0.3.0"
xcap = "*"
nokhwa = { version = "0.10", features = ["input-native"] }
ashpd = { version = "*", default-features = false, features = ["tokio"] }
pipewire = "0.9"
enumflags2 = "0.7"
