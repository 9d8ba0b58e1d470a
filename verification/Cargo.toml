[package]
name = "bevy_agent_feedback"
version = "0.5.0"
edition = "2021"
publish = false

[dependencies]
bevy = { version = "0.19", default-features = false, features = ["bevy_render", "bevy_state", "bevy_ui", "bevy_window", "png", "std"] }
ctrlc = "3"
image = { version = "0.25", default-features = false, features = ["png"] }
log = "0.4"
serde = { version = "1", features = ["derive"] }
serde_json = "1"
