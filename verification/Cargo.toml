[package]
name = "nwws_oi"
version = "0.1.0"
edition = "2021"
publish = false

[dependencies]
chrono = "=0.4.45"
uuid = { version = "=1.27.0", features = ["v4"] }
jid = "=0.10.0"
xmpp-parsers = "=0.20.0"
tokio-xmpp = "=3.5.0"
tokio = { version = "=1.53.2", features = ["rt", "sync", "time"] }
futures = "=0.3.34"
log = "=0.4.34"
thiserror = "=1.0.69"
