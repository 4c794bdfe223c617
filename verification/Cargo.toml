[package]
name = "piano_spectrum"
version = "0.1.0"
edition = "2021"
publish = false

[dependencies]
ringbuf = "=0.4.8"
cpal = "0.15"
spectrum-analyzer = "=1.9.0"
prisma = "=0.1.1"
angular-units = "=0.2.4"
serde = { version = "=1.0.229", features = ["derive"] }
serde_json = "=1.0.154"
smart-leds = "0.3"
ws281x-rpi = "=0.0.1"
