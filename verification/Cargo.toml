[package]
name = "garlemald_client"
version = "0.1.0"
edition = "2021"
publish = false

[dependencies]
anyhow = "=1.0.104"
base64 = "=0.22.1"
blowfish = "=0.9.1"
cipher = "=0.4.4"
crc32fast = "=1.5.4"
directories = "=5.0.1"
env_logger = "=0.11.11"
flate2 = "=1.1.10"
icns = "=0.3.1"
ico = "=0.3.0"
image = { version = "=0.25.10", default-features = false, features = ["png"] }
libc = "=0.2.191"
log = "=0.4.35"
object = { version = "=0.36.7", default-features = false, features = ["read", "std"] }
parking_lot = "0.12"
serde = { version = "=1.0.229", features = ["derive"] }
tempfile = "=3.27.0"
toml = "=0.8.23"
ureq = "=2.12.1"
windows-sys = { version = "0.52", features = ["Win32_Foundation", "Win32_Security", "Win32_System_Diagnostics_Debug", "Win32_System_Kernel", "Win32_System_Memory", "Win32_System_SystemInformation", "Win32_System_Threading"] }
winreg = "0.52"
