[package]
name = "uart_port"
version = "0.1.0"
edition = "2021"
publish = false

[dependencies]
embedded-io = "*"
nrf52833-hal = "*"
