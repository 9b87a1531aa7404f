[package]
name = "csql"
version = "0.1.0"
edition = "2021"
publish = false

[dependencies]
chrono = { version = "=0.4.45", default-features = false, features = ["std"] }
csv = "=1.4.0"
grid = "=0.10.0"
tokio = { version = "=1.54.1", features = ["rt-multi-thread", "macros", "sync", "fs"] }
sqlx = { version = "=0.7.4", default-features = false, features = ["mysql", "runtime-tokio"] }
eframe = { version = "=0.22.0", default-features = false, features = ["glow", "default_fonts"] }
egui = { version = "=0.22.0", default-features = false }
egui_extras = { version = "=0.22.0", default-features = false }
rfd = { version = "0.14", default-features = false, features = ["xdg-portal", "tokio"] }
