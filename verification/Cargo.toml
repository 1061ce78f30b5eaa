[package]
name = "market_aggregator"
version = "0.1.0"
edition = "2021"
publish = false

[dependencies]
serde_json = "=1.0.154"
multimap = "=0.10.1"
tokio = { version = "=1.54.1", features = ["full"] }
tokio-tungstenite = { version = "=0.30.0", features = ["native-tls"] }
futures-util = "=0.3.34"
log = "=0.4.34"
chrono = "=0.4.45"
colored = "=3.1.1"
fern = "=0.7.1"
dotenv = "=0.15.0"
eframe = { version = "*", default-features = false, features = ["default_fonts", "glow", "x11", "wayland"] }
egui = "*"
