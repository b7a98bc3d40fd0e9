[package]
name = "pterm"
version = "0.1.0"
edition = "2021"
publish = false

[dependencies]
anyhow = "1"
env_logger = "*"
gdk = "*"
gdk-sys = "*"
gio = "*"
glib = "*"
gtk = "*"
gtk-sys = "*"
log = "0.4"
pango = "*"
serde = { version = "1", features = ["derive"] }
toml = "0.5"
vte-rs = "0.5"
xdg = "2"
