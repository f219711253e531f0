[package]
name = "co2_monitor"
version = "0.1.0"
edition = "2021"
publish = false

[dependencies]
axum = "0.8"
tokio = { version = "1", features = ["macros", "rt-multi-thread", "net"] }
serde = { version = "1", features = ["derive"] }
futures = "0.3"
influxdb2 = { version = "0.5", default-features = false }
smoltcp = "0.12"
embedded-io = "0.6"
defmt = "1"
esp-hal = "1.0.0"
esp-radio = "0.16"
esp-rtos = "0.1"
esp-alloc = "0.9"
esp-backtrace = "0.18"
esp-bootloader-esp-idf = "0.3"
esp-println = "0.16"
