[package]
name = "slurm_job_monitor"
version = "0.1.0"
edition = "2021"
publish = false

[dependencies]
chrono = "0.4"
clap = { version = "4", features = ["derive"] }
csv = "1"
gethostname = "*"
nvml-wrapper = "*"
regex = "1"
serde = { version = "1", features = ["derive"] }
serde_json = "1"
