[package]
name = "sdsc_utils"
version = "0.1.0"
edition = "2021"
publish = false

[dependencies]
crc32fast = "1"
hidapi = { version = "2", default-features = false, features = ["linux-native-basic-udev"] }
iced = { version = "0.14", default-features = false, features = ["canvas", "tiny-skia", "thread-pool"] }
png = "0.17"
rfd = { version = "0.15", default-features = false, features = ["xdg-portal", "async-std"] }
serde = { version = "1", features = ["derive"] }
serde_json = "1"
