[package]
name = "pico_games"
version = "0.1.0"
edition = "2021"

[dependencies]
heapless = "0.7"
embedded-graphics = "0.7"
embedded-hal = "0.2"
cortex-m = "0.7"
cortex-m-rt = "0.7"
rp-pico = "0.9"
panic-halt = "0.2"
