[package]
name = "async_hid"
version = "0.1.0"
edition = "2021"
publish = false

[dependencies]
crossbeam-queue = "=0.3.14"
atomic-waker = "=1.1.2"
futures-lite = "=2.6.1"
async-io = "=2.6.0"
nix = { version = "=0.29.0", features = ["fs", "ioctl", "socket", "uio"] }
log = "=0.4.34"
windows = { version = "0.61", features = ["Win32_Devices_DeviceAndDriverInstallation", "Win32_Devices_HumanInterfaceDevice", "Win32_Foundation", "Win32_Security", "Win32_Storage_FileSystem", "Win32_System_IO", "Win32_System_Threading"] }
objc2-io-kit = "0.3"
objc2-core-foundation = "0.3"
dispatch2 = "0.3"
block2 = "0.6"
