[package]
name = "cellular_automata"
version = "0.1.0"
edition = "2021"
publish = false

[dependencies]
anyhow = "1"
bytemuck = { version = "1", features = ["derive", "extern_crate_alloc"] }
egui = "0.33"
egui-wgpu = { version = "0.33", features = ["winit"] }
egui-winit = "0.33"
pollster = "0.4"
