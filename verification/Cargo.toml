[package]
name = "wiky"
version = "0.1.0"
edition = "2021"
publish = false

[dependencies]
colored = "2"
textwrap = "0.16"
clap = { version = "4", features = ["derive", "env"] }
confy = "0.6"
indicatif = "0.17"
minus = { version = "5", features = ["static_output"] }
open = "5"
reqwest = { version = "0.12", default-features = false, features = ["json", "rustls-tls"] }
serde = { version = "1", features = ["derive"] }
serde_json = "1"
terminal_size = "0.4"
thiserror = "1"
tokio = { version = "1", features = ["macros", "rt-multi-thread"] }
