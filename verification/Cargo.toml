[package]
name = "jwalk-meta"
version = "0.1.0"
edition = "2021"
publish = false

[dependencies]
crossbeam = "0.8"
smallvec = "1"
rayon = "1"
libc = "0.2"
io-uring = "0.7"
winapi = { version = "0.3", features = ["fileapi", "handleapi", "libloaderapi", "winbase", "winnt", "ntdef", "minwindef"] }
