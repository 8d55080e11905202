[package]
name = "can_recorder"
version = "0.1.0"
edition = "2021"
publish = false

[dependencies]
arrow = { version = "=60.0.0", default-features = false }
ctrlc = "=3.5.2"
dbc-rs = "=0.6.0"
iced = { version = "=0.14.0", default-features = false, features = ["canvas", "tiny-skia", "tokio", "x11"] }
parquet = { version = "=60.0.0", default-features = false, features = ["arrow", "snap"] }
plotters = { version = "=0.3.7", default-features = false, features = ["line_series"] }
plotters-iced2 = { version = "=0.14.0", default-features = false }
socketcan = { version = "=4.0.0", default-features = false }
tokio = { version = "=1.54.1", default-features = false, features = ["rt-multi-thread", "macros", "net", "io-util", "sync"] }

[dev-dependencies]
bytemuck = "=1.25.2"
