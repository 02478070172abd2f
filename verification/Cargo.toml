[package]
name = "tiks_shell"
version = "0.1.0"
edition = "2021"
publish = false

[dependencies]
chrono = "*"
dirs = "*"
flate2 = "*"
rpassword = "*"
tar = "*"
term_size = "*"
termion = "*"
