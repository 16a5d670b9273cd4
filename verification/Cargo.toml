[package]
name = "intran3t_rbac"
version = "0.1.0"
edition = "2021"
publish = false

[dependencies]
ink = "5"
ethabi = "*"
sha2 = "*"
