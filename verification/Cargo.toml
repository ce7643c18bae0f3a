[package]
name = "dhcp_server"
version = "0.1.0"
edition = "2021"
publish = false

[dependencies]
async-trait = "0.1"
log = "0.4"
macaddr = "1"
pnet = "0.28"
reqwest = { version = "0.11", features = ["json"] }
serde = { version = "1", features = ["derive"] }
serde_json = "1"
serde_yaml = "0.8"
simplelog = "0.10"
structopt = "0.3"
tera = "1"
tokio = { version = "1", features = ["full"] }
url = "2"
