[package]
name = "voxel_world"
version = "0.1.0"
edition = "2021"
publish = false

[dependencies]
anyhow = "1"
bevy = { version = "=0.12.1", default-features = false, features = ["multi-threaded"] }
block-mesh = "=0.2.0"
directories = "5"
futures-lite = "2"
ndcopy = "=0.3.0"
ndshape = "=0.3.0"
simdnoise = "=3.1.6"
zstd = "=0.13.3"

[dev-dependencies]
bincode = "=1.3.3"
