[package]
name = "nt_primes"
version = "0.1.0"
edition = "2021"

[dependencies]
number-theory = "*"
