[package]
name = "submod"
version = "0.1.0"
edition = "2021"
publish = false

[dependencies]
anyhow = "=1.0.104"
bitflags = "=2.13.2"
clap = { version = "=4.6.7", features = ["derive"] }
clap_complete = "=4.6.11"
clap_complete_nushell = "=4.6.2"
git2 = { version = "=0.21.0", default-features = false }
gix-submodule = { version = "=0.36.1", features = ["sha1"] }
serde = { version = "=1.0.229", features = ["derive"] }
thiserror = "=2.0.21"
toml = "=1.1.8"
toml_edit = "=0.25.18"
