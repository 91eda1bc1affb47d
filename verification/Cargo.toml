[package]
name = "skttmp"
version = "0.1.0"
edition = "2021"
publish = false

[dependencies]
crossbeam = "0.8"
ctor = "0.2"
device_query = "1.1.3"
laminar = "0.5"
macroquad = { version = "0.4", default-features = false }
retour = "*"
tracing = "0.1"
vigem-client = "*"
winapi = { version = "0.3", features = ["libloaderapi", "errhandlingapi", "psapi", "processthreadsapi", "minwindef"] }
