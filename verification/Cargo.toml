[package]
name = "web-vlog"
version = "0.1.0"
edition = "2021"
publish = false

[dependencies]
base64 = "=0.22.1"
sha1 = "=0.10.7"
v-log = "=0.2.0"
log = "=0.4.34"
