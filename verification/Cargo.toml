[package]
name = "cpu-affinity"
version = "0.4.4"
edition = "2021"
publish = false

[dependencies]
dpdk-unix = "=0.2.12"
kernel32-sys = "=0.2.2"
libc = "=0.2.191"
mach = "=0.2.3"
num_cpus = "=1.17.0"
winapi = "=0.2.8"
