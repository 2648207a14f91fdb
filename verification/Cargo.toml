[package]
name = "projectpad"
version = "0.1.0"
edition = "2021"
publish = false

[dependencies]
shell-words = "1.0"
serde = { version = "1.0", features = ["derive"] }
serde_yaml = "0.8"
diesel = { version = "1.4", features = ["sqlite"] }
dirs = "3.0"
libc = "0.2"
skim = "0.9"
gtk = "0.9"
gdk = "0.13"
glib = "0.10"
cairo-rs = "0.9"
pango = "0.9"
relm = "0.20"
relm-derive = "0.20"
