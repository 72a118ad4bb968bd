[package]
name = "sparse_fortran"
version = "0.1.0"
edition = "2021"
publish = false

[dependencies]
argh = "0.1"
chrono = "0.4"
termcolor = "1"
