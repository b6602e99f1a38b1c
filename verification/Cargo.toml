[package]
name = "server_init"
version = "0.1.0"
edition = "2021"
publish = false

[dependencies]
actix-web = { version = "*", default-features = false, features = ["macros"] }
chrono = "*"
clap = { version = "*", features = ["derive"] }
cuid2 = "*"
directories = "*"
git2 = { version = "*", default-features = false }
local-ip-address = "*"
reqwest = { version = "*", default-features = false, features = ["json"] }
rnix = "*"
sqlite = "*"
tokio = { version = "*", features = ["macros", "rt-multi-thread", "fs"] }
