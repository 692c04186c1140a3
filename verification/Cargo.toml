[package]
name = "mc_cli"
version = "0.0.1"
edition = "2021"
publish = false

[dependencies]
uuid = { version = "1", features = ["v4"] }
urlencoding = "2"
serde = { version = "1", features = ["derive"] }
serde_json = "1"
serde_path_to_error = "*"
serde-xml-rs = "*"
clap = { version = "4", features = ["derive"] }
cli-table = "*"
directories = "*"
indicatif = "*"
futures-util = "*"
tokio = { version = "1", features = ["full"] }
reqwest = { version = "*", default-features = false, features = ["blocking", "stream", "rustls-tls"] }
zip = { version = "2", default-features = false, features = ["deflate"] }
compress-tools = "*"
jars = "*"
open = "*"
byteorder = "*"
