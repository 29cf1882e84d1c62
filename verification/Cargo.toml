[package]
name = "ame"
version = "0.2.0"
edition = "2021"
publish = false

[dependencies]
pest = "2"
pest_derive = "2"
neo4j = "*"
