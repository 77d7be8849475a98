[package]
name = "mapfilter"
version = "0.1.0"
edition = "2021"
publish = false

[dependencies]
regex = "*"
fancy-regex = "*"
geoutils = "*"
ellipse = "*"
thousands = "*"
console = "*"
osmpbf = "*"
color-eyre = "*"
clap = { version = "*", features = ["derive"] }
