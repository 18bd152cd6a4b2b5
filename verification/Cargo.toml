[package]
name = "otree"
version = "0.1.0"
edition = "2021"
publish = false

[dependencies]
anyhow = "=1.0.104"
clap = { version = "=4.6.7", features = ["derive"] }
console = "=0.16.6"
crossterm = "=0.28.1"
dirs = "=7.0.0"
hcl-rs = "=0.19.9"
humansize = "=2.1.3"
notify = "=8.2.1"
paste = "=1.0.15"
quick-xml = "=0.38.4"
ratatui = "=0.29.0"
regex = "=1.13.1"
serde = { version = "=1.0.229", features = ["derive"] }
serde_json = { version = "=1.0.154", features = ["preserve_order"] }
serde_yml = "=0.0.12"
strum = { version = "=0.26.3", features = ["derive"] }
toml = { version = "=1.1.8", features = ["preserve_order"] }
tui-textarea = "=0.7.0"
tui-tree-widget = "=0.23.1"
