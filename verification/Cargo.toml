[package]
name = "exercises"
version = "0.1.0"
edition = "2021"
publish = false

[dependencies]
diesel = { version = "2", features = ["postgres"] }
dotenv = "0.15"
redb = "2"
