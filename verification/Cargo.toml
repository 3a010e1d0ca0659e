[package]
name = "run_queue"
version = "0.1.0"
edition = "2021"
publish = false

[dependencies]
ax-sched = "=0.5.11"
ax-kspin = "=0.3.17"
ax-kernel-guard = "=0.3.13"
ax-lazyinit = "=0.4.10"
ax-memory-addr = "*"
ax-percpu = "=0.4.24"
ax-crate-interface = "=0.5.8"
ax-hal = "0.5.31"
ax-ipi = "0.5.31"
log = "=0.4.35"
