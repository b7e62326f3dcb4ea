[package]
name = "voidmic_core"
version = "0.1.0"
edition = "2021"
publish = false

[dependencies]
webrtc-vad = "*"
ringbuf = "*"
nnnoiseless = "*"
biquad = "*"
crossbeam-channel = "*"
spectrum-analyzer = "*"
aec3 = "*"
