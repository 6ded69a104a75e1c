[package]
name = "point_nav"
version = "0.1.0"
edition = "2021"
publish = false

[dependencies]
once_cell = "*"
rosrust = "*"
rosrust_msg = "*"
