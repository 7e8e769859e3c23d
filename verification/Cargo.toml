[package]
name = "nono-approval"
version = "0.1.0"
edition = "2021"
publish = false

[dependencies]
bytesize = "2"
clap = { version = "4", features = ["derive"] }
clap_complete = "4"
crossterm = "0.28"
directories = "6"
getrandom = "0.3"
http-body-util = "0.1"
humantime = "2"
hyper = { version = "1", features = ["client", "http1", "server"] }
hyper-util = { version = "0.1", features = ["tokio"] }
jiff = "0.2"
nix = { version = "0.30", features = ["socket", "user"] }
ratatui = "0.29"
serde = { version = "1", features = ["derive"] }
serde_json = { version = "1", features = ["raw_value"] }
shlex = "1.3"
tempfile = "3"
textwrap = "0.16"
thiserror = "2"
tokio = { version = "1", features = ["macros", "net", "process", "rt-multi-thread", "signal", "sync", "time"] }
toml = "0.9"
tracing = "0.1"
tracing-subscriber = { version = "0.3", features = ["json"] }
unicode-width = "0.2"
vte = "0.15"
