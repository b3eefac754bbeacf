[package]
name = "hunt_summary"
version = "0.1.0"
edition = "2021"
publish = false

[dependencies]
chrono = "0.4"
clap = { version = "4", features = ["derive"] }
directories = "*"
notify = "*"
notify-debouncer-mini = "*"
quick-xml = { version = "*", features = ["serialize"] }
regex = "1"
serde = { version = "1", features = ["derive"] }
