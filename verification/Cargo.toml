[package]
name = "mqtt_sink"
version = "0.1.0"
edition = "2021"
publish = false

[dependencies]
bytes = "=1.12.1"
bytestring = "=1.5.1"
derive_more = "=0.99.20"
either = "=1.19.0"
futures = "=0.3.34"
log = "=0.4.35"
# Not used directly: ntex 0.3 builds only with these features of mio switched on.
mio = { version = "=0.7.14", features = ["net", "os-poll", "os-util"] }
ntex = "=0.3.14"
slab = "=0.4.12"
