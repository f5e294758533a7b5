[package]
name = "shepherd"
version = "0.1.0"
edition = "2021"
publish = false

[dependencies]
async-trait = "0.1"
futures-util = { version = "0.3", default-features = false, features = ["std", "async-await"] }
libc = "0.2"
libproc = "*"
mach2 = "*"
nix = { version = "*", features = ["fs", "process", "signal"] }
sysinfo = { version = "*", default-features = false, features = ["system"] }
thiserror = "*"
tokio = { version = "1", features = ["fs", "io-util", "macros", "process", "rt", "rt-multi-thread", "sync", "time"] }
tracing = "0.1"
windows-sys = { version = "*", features = ["Win32_Foundation", "Win32_Security", "Win32_Storage_FileSystem", "Win32_System_Console", "Win32_System_Diagnostics_ToolHelp", "Win32_System_IO", "Win32_System_JobObjects", "Win32_System_ProcessStatus", "Win32_System_SystemInformation", "Win32_System_Threading"] }
