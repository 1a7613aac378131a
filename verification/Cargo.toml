[package]
name = "cio"
version = "0.1.0"
edition = "2021"
publish = false

[dependencies]
airtable-api = "*"
chrono = "*"
chrono-humanize = "*"
data-encoding = "*"
phonenumber = "*"
regex = "*"
reqwest = { version = "*", features = ["blocking", "json"] }
serde = { version = "*", features = ["derive"] }
serde_json = "*"
