[package]
name = "git_analyse"
version = "0.1.0"
edition = "2021"
publish = false

[dependencies]
zip = { version = "*", default-features = false, features = ["deflate"] }
serde_json = "*"
reqwest = { version = "*", default-features = false }
tokio = { version = "*", default-features = false, features = ["macros", "rt-multi-thread"] }
dotenv = "*"
