[package]
name = "frameview_gui"
version = "0.1.0"
edition = "2021"
publish = false

[dependencies]
csv = "=1.4.0"
eframe = { version = "=0.37.0", default-features = false, features = ["default_fonts", "glow", "x11"] }
plotters = { version = "=0.3.7", default-features = false, features = ["bitmap_backend", "bitmap_encoder", "ttf", "all_series", "all_elements"] }
rfd = { version = "=0.17.2", default-features = false, features = ["xdg-portal"] }
