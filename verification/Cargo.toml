[package]
name = "cmdtable"
version = "0.1.0"
edition = "2021"
publish = false

[dependencies]
async-trait = "0.1"
datafusion = "43"
datafusion-expr = "43"
rustyline = "*"
serde_json = "1"
ssh2 = "0.9"
ssh2-config = "*"
