[package]
name = "tttocea608"
version = "0.1.0"
edition = "2021"
publish = false

[dependencies]
gstreamer = "=0.16.7"
glib = "=0.10.3"
once_cell = "=1.21.4"
serde = { version = "=1.0.229", features = ["derive"] }
serde_json = "=1.0.154"
muldiv = "=0.2.1"
