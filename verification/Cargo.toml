[package]
name = "matterpackr"
version = "0.1.0"
edition = "2021"
publish = false

[dependencies]
zip = "*"
sevenz-rust2 = "*"
unrar = "*"
flate2 = "1"
bzip2 = "*"
tar = "0.4"
hadris-optical = "*"
hadris-io = "*"
log = "0.4"
serde = { version = "1", features = ["derive"] }
thiserror = "*"
