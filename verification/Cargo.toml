[package]
name = "ntp_clock"
version = "0.1.0"
edition = "2021"
publish = false

[dependencies]
jiff = { version = "0.2", default-features = false, features = ["std"] }
ieee80211 = "*"
sntpc = "*"
sntpc-net-embassy = "*"
critical-section = "*"
defmt = "*"
embassy-executor = "*"
embassy-net = "*"
embassy-time = "*"
embedded-graphics = "*"
embedded-hal-bus = "*"
esp-alloc = "*"
esp-bootloader-esp-idf = "*"
esp-hal = "*"
esp-radio = "*"
esp-rtos = "*"
heapless = "*"
mipidsi = "*"
panic-rtt-target = "*"
pcf85063a = "*"
rtt-target = "*"
static_cell = "*"
