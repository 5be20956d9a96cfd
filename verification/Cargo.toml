[package]
name = "shutdown-on-lan"
version = "0.1.0"
edition = "2021"
publish = false

[dependencies]
anyhow = "1"
dirs = "*"
exitcode = "1"
log = "0.4"
plist = "1"
serde = { version = "1", features = ["derive"] }
serde_ini = "0.2"
simplelog = "0.12"
structopt = "0.3"
system_shutdown = "*"
thiserror = "1"
whoami = "1"
windows-service = "*"
winreg = "*"
