[package]
name = "xr_passthrough_layer"
version = "0.1.0"
edition = "2021"
publish = false

[dependencies]
anyhow = "*"
arc-swap = "*"
ash = "0.38"
bytemuck = { version = "*", features = ["derive"] }
ctrlc = "*"
dashmap = "6"
env_logger = { version = "*", default-features = false }
glam = { version = "*", features = ["bytemuck"] }
heck = "*"
image = { version = "*", default-features = false, features = ["png"] }
itertools = "*"
log = "*"
nalgebra = "*"
openxr = { version = "*", default-features = false, features = ["loaded"] }
phf = { version = "*", features = ["macros"] }
proc-macro2 = "1"
quick-xml = { version = "*", features = ["serialize"] }
quote = "1"
renderdoc = { version = "*", default-features = false }
serde = { version = "1", features = ["derive"] }
serde_json = "1"
smallvec = "1"
thiserror = "*"
toml = "*"
udev = "*"
v4l = "*"
vulkano = "*"
vulkano-shaders = "*"
winit = "*"
xdg = "*"
