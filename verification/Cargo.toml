[package]
name = "waggle_mvb"
version = "0.1.0"
edition = "2021"
publish = false

[dependencies]
anchor-lang = { version = "=0.29.0", features = ["init-if-needed"] }
anchor-spl = { version = "=0.29.0", features = ["metadata"] }
arrayref = "=0.3.9"
bytemuck = { version = "=1.25.2", features = ["derive", "min_const_generics"] }
