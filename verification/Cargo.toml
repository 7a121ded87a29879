[package]
name = "code_02_stm32h7_dm"
version = "0.1.0"
edition = "2021"
publish = false

[dependencies]
fdcan = "0.2"
cortex-m = "0.7"
cortex-m-rt = "0.7"
panic-halt = "0.2"
nb = "1"
rtt-target = "*"
stm32h7xx-hal = { version = "0.15", features = ["stm32h735", "can", "rt"] }
