[package]
name = "container_query_parser"
version = "0.1.0"
edition = "2021"
publish = false

[dependencies]
biome_aria_metadata = "=0.5.7"
biome_js_syntax = "=0.5.7"
biome_rowan = "=0.5.7"
