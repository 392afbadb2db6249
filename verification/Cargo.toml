[package]
name = "matrix_clock"
version = "0.1.0"
edition = "2021"
publish = false

[dependencies]
apds9960 = "0.1"
bitvec = "1"
bme280 = "0.2"
chrono = "0.4"
linux-embedded-hal = "0.3"
nb = "1"
paho-mqtt = "0.9"
palette = "0.5"
rppal = "0.14"
