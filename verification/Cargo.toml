[package]
name = "tables"
version = "0.1.0"
edition = "2021"
publish = false

[dependencies]
rusqlite = { version = "=0.41.1", features = ["bundled", "column_decltype"] }
postgres = "=0.19.14"
rust_decimal = "=1.43.0"
num-traits = "=0.2.19"
gtk = "=0.9.2"
gdk = "=0.13.2"
gio = "=0.9.1"
glib = "=0.10.3"
sourceview = "=0.9.0"
