[package]
name = "manualmap"
version = "0.1.0"
edition = "2021"
publish = false

[dependencies]
egui = "*"
winapi = { version = "0.3", features = ["basetsd", "handleapi", "impl-default", "libloaderapi", "memoryapi", "minwinbase", "minwindef", "ntdef", "processthreadsapi", "tlhelp32", "vadefs", "winnt"] }
