[package]
name = "risp8"
version = "0.1.0"
edition = "2021"
publish = false

[dependencies]
rand = "0.7"
kanal = "*"
dynasmrt = "*"
memmap = "0.7"
ratatui = "*"
crossterm = "*"
