[package]
name = "hifive_sbi"
version = "0.1.0"
edition = "2021"
publish = false

[dependencies]
rustsbi = "0.2"
riscv = "0.8"
r0 = "0.2"
buddy_system_allocator = "0.8"
clap = "2"
ctrlc = "3"
