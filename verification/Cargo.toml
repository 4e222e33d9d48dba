[package]
name = "yara_x_binja"
version = "0.1.0"
edition = "2021"
publish = false

[dependencies]
yara-x = { version = "=1.21.0", default-features = false, features = ["constant-folding", "default-modules", "exact-atoms", "fast-regexp"] }
# yara-x 1.21.0 compiles only with its two helper crates of the same version, and
# cargo would take newer ones: they are named to hold them to it.
yara-x-macros = "=1.21.0"
yara-x-parser = "=1.21.0"
dirs = "=7.0.0"
bstr = "=1.13.1"
log = "=0.4.34"
serde_json = "=1.0.154"
binaryninja = "=0.0.1"
