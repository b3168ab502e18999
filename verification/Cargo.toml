[package]
name = "libhotpatch"
version = "0.1.0"
edition = "2021"
publish = false

[dependencies]
xxhash-rust = { version = "0.8", features = ["xxh3"] }
libloading = "0.8"
tempfile = "3"
atomic-wait = "1"
libc = "0.2"
linkme = "0.3"
log = "0.4"
syn = { version = "2", features = ["full"] }
quote = "1"
proc-macro2 = "1"
rmp-serde = "1"
windows-sys = { version = "0.52", features = ["Win32_Foundation", "Win32_System_LibraryLoader", "Win32_System_Memory"] }
