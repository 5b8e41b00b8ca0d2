[package]
name = "esp_sensor"
version = "0.1.0"
edition = "2021"
publish = false

[dependencies]
anyhow = "=1.0.104"
log = "=0.4.34"
bus = "=2.4.1"
dht-hal-drv = "=0.2.2"
tm1637 = "=0.1.0"
embedded-svc = "=0.29.0"
esp-idf-hal = "=0.47.0"
esp-idf-svc = "=0.53.0"
esp-idf-sys = "=0.38.1"
toml-cfg = "=0.2.0"
embassy-executor = "*"
embassy-net = { version = "*", features = ["tcp", "dns", "dhcpv4", "proto-ipv4", "medium-ethernet"] }
embassy-time = "*"
embedded-nal-async = "*"
esp-wifi = "*"
esp32c3-hal = "*"
reqwless = "*"
smoltcp = "*"

[dev-dependencies]
influxdb-line-protocol = "=2.0.0"
