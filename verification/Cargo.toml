[package]
name = "oggify"
version = "0.1.0"
edition = "2021"
publish = false

[dependencies]
env_logger = { version = "=0.11.11", default-features = false }
futures = "=0.3.34"
getopts = "=0.2.24"
librespot-audio = { version = "=0.4.2", default-features = false }
librespot-core = { version = "=0.4.2", default-features = false }
librespot-metadata = { version = "=0.4.2", default-features = false }
librespot-protocol = "=0.4.2"
linear-map = "=1.2.0"
log = "=0.4.34"
sanitize-filename = "=0.6.0"
tokio = { version = "=1.54.1", default-features = false, features = ["macros", "rt-multi-thread", "time"] }

[dev-dependencies]
regex = "=1.13.1"
