[package]
name = "pageflow"
version = "0.1.0"
edition = "2021"
publish = false

[dependencies]
docx-rs = "0.4"
image = "0.24"
printpdf = "0.7"
zip = "0.6"
log = "0.4"
env_logger = "0.10"
thiserror = "1"
