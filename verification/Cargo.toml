[package]
name = "pmtiles_raster_tool"
version = "0.1.0"
edition = "2021"
publish = false

[dependencies]
anyhow = "*"
bytes = "*"
clap = { version = "*", features = ["derive"] }
flume = "*"
futures-util = "*"
indicatif = "*"
pmtiles = "*"
png = "*"
rayon = "*"
tokio = { version = "*", features = ["rt-multi-thread", "macros"] }
