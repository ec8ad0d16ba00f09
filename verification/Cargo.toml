[package]
name = "esp32_led_flasher"
version = "0.1.0"
edition = "2021"
publish = false

[dependencies]
heapless = "0.8"
anyhow = "1"
log = "0.4"
esp-idf-hal = "0.45"
esp-idf-svc = "0.51"
