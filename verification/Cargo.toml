[package]
name = "springroll"
version = "0.1.0"
edition = "2021"
publish = false

[dependencies]
anyhow = "1"
clap = { version = "4", features = ["derive"] }
clap-verbosity-flag = "*"
console = "*"
env_logger = "*"
fs-err = { version = "*", features = ["tokio"] }
indicatif = "*"
itertools = "*"
log = "*"
reqwest = { version = "*", default-features = false }
resvg = "*"
serde = { version = "*", features = ["derive"] }
tiny-skia = "*"
tokio = { version = "*", features = ["macros", "rt-multi-thread"] }
toml = "*"
usvg = "*"
