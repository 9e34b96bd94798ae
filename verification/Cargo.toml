[package]
name = "rplace_fun"
version = "0.1.0"
edition = "2021"
publish = false

[dependencies]
chrono = "=0.4.45"
csv = "=1.4.0"
diesel = { version = "=2.3.13", features = ["postgres", "chrono"] }
dotenvy = "=0.15.7"
