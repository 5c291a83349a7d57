[package]
name = "cbs_dao"
version = "0.1.0"
edition = "2021"
publish = false
