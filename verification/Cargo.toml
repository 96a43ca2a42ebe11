[package]
name = "sound_garden"
version = "0.1.0"
edition = "2021"
publish = false

[dependencies]
crdts = "=7.3.2"
ropey = "=1.6.1"
rand = "=0.10.3"
serde = { version = "=1.0.229", features = ["derive"] }
smallvec = "=1.16.4"
itertools = "=0.13.0"
log = "=0.4.35"
downcast-rs = "=2.0.2"
micromath = "=2.1.0"
regex = "=1.13.1"
ahash = "=0.8.12"
anyhow = "=1.0.104"
clap = { version = "=4.6.7", features = ["cargo"] }
hound = "=3.5.1"
crossbeam-channel = "=0.5.17"
rtrb = "=0.4.1"
rkyv = "=0.8.18"
rustfft = "=6.4.1"
apodize = "=1.0.0"
symphonia = { version = "=0.6.1", features = ["all"] }
nom = "=7.1.3"
alloc_counter = "=0.0.4"
