[package]
name = "muton"
version = "0.1.0"
edition = "2021"
publish = false

[dependencies]
chrono = "0.4"
clap = { version = "4", features = ["derive"] }
console = "*"
ctrlc = "3"
fern = "*"
globset = "0.4"
hex = "0.4"
indicatif = "*"
log = "0.4"
once_cell = "1"
serde = { version = "1", features = ["derive"] }
sha2 = "0.10"
similar = { version = "2", features = ["unicode"] }
sqlx = { version = "0.8", default-features = false, features = ["sqlite", "runtime-tokio"] }
thiserror = "*"
tokio = { version = "1", features = ["rt-multi-thread", "macros"] }
toml = "*"
tree-sitter = "*"
