[package]
name = "dprint_plugin_tex_fmt"
version = "0.1.0"
edition = "2021"
publish = false

[dependencies]
anyhow = "=1.0.104"
dprint-core = { version = "=0.75.0", features = ["wasm"] }
indexmap = "=2.14.2"
log = "=0.4.35"
schemars = "=1.2.3"
serde = { version = "=1.0.229", features = ["derive"] }
serde_json = "=1.0.154"
tex-fmt = "=0.5.7"
