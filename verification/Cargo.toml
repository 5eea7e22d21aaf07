[package]
name = "dc34_console"
version = "0.1.0"
edition = "2021"
publish = false

[dependencies]
base64 = "0.22"
crc32fast = "1"
bytemuck = "1"
log = "0.4"
num-traits = "0.2"
num-derive = "0.4"
arbitrary-int = "1"
xous = "*"
xous-api-names = "*"
