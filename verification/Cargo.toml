[package]
name = "hlwinter"
version = "0.1.0"
edition = "2021"
publish = false

[dependencies]
clap = "2"
dirs = "5"
gdk = "0.18"
gdk-sys = "0.18"
gio = "0.18"
glib = "0.18"
gtk = "0.18"
serde = { version = "1", features = ["derive"] }
serde_derive = "1"
serde_json = "1"
serde-xml-rs = "0.6"
