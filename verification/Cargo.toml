[package]
name = "awaitbalance"
version = "0.1.0"
edition = "2021"
publish = false

[dependencies]
defmt = "=0.3.101"
defmt-rtt = "=0.4.2"
panic-probe = { version = "=0.3.2", features = ["print-defmt"] }
libm = "=0.2.16"
embassy-executor = { version = "=0.9.1", features = ["arch-spin", "executor-thread", "defmt"] }
embassy-stm32 = { version = "=0.6.0", features = ["stm32f207zg", "time-driver-any", "exti", "memory-x", "defmt"] }
embassy-sync = { version = "=0.8.0", features = ["defmt"] }
embassy-time = { version = "=0.5.1", features = ["defmt"] }
