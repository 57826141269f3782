[package]
name = "discogs_release_xml_parser"
version = "0.1.0"
edition = "2021"
publish = false

[dependencies]
quick-xml = "*"
mysql = "*"
time = "*"
