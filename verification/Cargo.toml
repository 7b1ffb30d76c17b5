[package]
name = "snake_game_rust"
version = "0.1.0"
edition = "2021"
publish = false

[dependencies]
crossbeam = "=0.8.5"
pc-keyboard = "=0.8.0"
pluggable_interrupt_os = "=0.5.3"
x86_64 = "=0.15.4"
