[package]
name = "car_kinematics"
version = "0.1.0"
edition = "2021"
publish = false

[dependencies]
resvg = "0.19"
tiny-skia = "0.6"
usvg = "0.19"
