[package]
name = "textspace"
version = "0.1.0"
edition = "2021"
publish = false

[dependencies]
anyhow = "=1.0.104"
bevy = { version = "=0.18.1", default-features = false, features = ["bevy_pbr", "bevy_post_process", "bevy_ui", "bevy_ui_render", "bevy_text", "bevy_picking", "mesh_picking", "bevy_gizmos", "bevy_gizmos_render", "default_font", "std", "multi_threaded", "bevy_log"] }
bevy_slugtext = "=0.1.0"
compactly = "=0.2.0"
redb = "=3.1.3"
