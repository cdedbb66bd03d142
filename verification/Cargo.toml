[package]
name = "pwvucontrol"
version = "0.1.0"
edition = "2021"
publish = false

[dependencies]
imbl = "*"
im-rc = "15"
glib = "*"
