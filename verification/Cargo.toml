[package]
name = "criterion_charts_tsx"
version = "0.1.0"
edition = "2021"
publish = false

[dependencies]
bytemuck = "*"
libm = "*"
clap = "=4.6.7"
csv = "=1.4.0"
glob = "=0.3.4"
handlebars = "=6.4.4"
serde_json = "=1.0.151"
