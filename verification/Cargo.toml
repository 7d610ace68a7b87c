[package]
name = "herbfarm_sensor"
version = "0.1.0"
edition = "2021"
publish = false

[dependencies]
anyhow = "1"
thiserror = "1"
log = "0.4"
embedded-graphics = "0.7"
mipidsi = "0.6"
display-interface-spi = "0.4"
gfx-xtra = "0.1"
embedded-svc = "0.25"
esp-idf-hal = "0.41"
esp-idf-svc = "0.46"
esp-idf-sys = "0.33"
