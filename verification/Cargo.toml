[package]
name = "android-bluetooth-serial"
version = "0.1.0"
edition = "2021"
publish = false

[dependencies]
jni = "=0.21.1"
jni-min-helper = "0.3"
