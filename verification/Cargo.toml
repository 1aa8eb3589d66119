[package]
name = "mastodon_diary"
version = "0.1.0"
edition = "2021"
publish = false

[dependencies]
chrono = "=0.4.45"
chrono-tz = "=0.10.4"
html-escape = "=0.2.15"
select = "=0.6.1"
serde_json = "=1.0.151"
url = "=2.5.8"
clap = "=4.6.7"
reqwest = { version = "=0.13.5", default-features = false, features = ["blocking"] }
