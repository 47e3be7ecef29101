[package]
name = "ptymux"
version = "0.1.0"
edition = "2021"
publish = false

[dependencies]
ansi-escapes = "*"
crossbeam = "*"
dunce = "*"
terminal_size = "*"
vte = "0.3"
widestring = "*"
winapi = { version = "0.3", features = ["basetsd", "consoleapi", "handleapi", "impl-default", "minwindef", "namedpipeapi", "ntdef", "processenv", "processthreadsapi", "synchapi", "winbase", "wincon", "winerror", "winnt"] }
