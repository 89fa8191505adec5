[package]
name = "furnace"
version = "0.1.0"
edition = "2021"
publish = false

[dependencies]
base64 = "*"
dotenv = "0.15"
log = "0.4"
once_cell = "1"
rrplug = "*"
hudhook = "*"
imgui = "*"
eframe = { version = "*", default-features = false }
egui-winit = { version = "*", default-features = false }
