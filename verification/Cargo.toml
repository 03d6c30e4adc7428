[package]
name = "jmap-mail"
version = "0.1.0"
edition = "2021"
publish = false

[dependencies]
glib-sys = "*"
gobject-sys = "*"
gio-sys = "*"
tracing = "*"
