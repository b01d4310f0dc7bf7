[package]
name = "resolver_hook"
version = "0.1.0"
edition = "2021"
publish = false

[dependencies]
portable-atomic = "1"
serde = { version = "1", features = ["derive"] }
derive_more = { version = "1", features = ["display", "from"] }
nalgebra = "0.33"
num-traits = "0.2"
rand = { version = "0.8", features = ["small_rng"] }
serde-big-array = "0.5"
static_assertions = "1"
ntapi = "0.4"
winapi = { version = "0.3", features = ["consoleapi", "libloaderapi", "memoryapi", "minwindef", "processenv", "processthreadsapi", "psapi", "synchapi", "wincon", "winnt", "winuser"] }
