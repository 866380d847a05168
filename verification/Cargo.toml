[package]
name = "backup_basic"
version = "0.1.0"
edition = "2021"
publish = false

[dependencies]
winapi = { version = "0.3", features = ["wincon", "winuser", "shellapi", "libloaderapi", "errhandlingapi", "winerror", "winbase", "minwindef", "windef"] }
