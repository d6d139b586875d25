[package]
name = "various_micro_services"
version = "0.1.0"
edition = "2021"
publish = false

[dependencies]
sled = "=0.34.7"
serde_cbor = "=0.11.2"
time = "=0.2.27"
serde = { version = "=1.0.229", features = ["derive"] }
serde_json = "=1.0.154"
log = "=0.4.34"
warp = "=0.3.7"
tokio = { version = "=1.54.1", features = ["macros", "rt-multi-thread"] }
iron = "=0.6.1"
router = "=0.6.0"
bodyparser = "=0.8.0"
tower-web = "0.3"
shrinkwraprs = "0.3"

[dev-dependencies]
json-patch = "=4.2.0"
