[package]
name = "hack_scraper"
version = "0.1.0"
edition = "2021"
publish = false

[dependencies]
html5ever = "=0.26.0"
markup5ever_rcdom = "=0.2.0"
prettytable-rs = "=0.10.0"
reqwest = { version = "=0.13.5", features = ["blocking"] }
scraper = "=0.29.0"
select = "=0.6.1"
