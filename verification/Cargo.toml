[package]
name = "native_windows_os"
version = "0.1.0"
edition = "2021"
publish = false

[dependencies]
memflow = "=0.2.4"

[dependencies.windows]
version = "0.54"
features = [
    "Wdk_System_SystemInformation",
    "Win32_Foundation",
    "Win32_Security",
    "Win32_System_Diagnostics_ToolHelp",
    "Win32_System_Threading",
]
