[package]
name = "knocks"
version = "0.1.0"
edition = "2021"
publish = false

[dependencies]
serde = { version = "1", features = ["derive"] }
serde_json = "1"
pulldown-cmark = "*"
tokio = { version = "1", features = ["rt-multi-thread", "macros", "time", "net"] }
hyper = { version = "1", features = ["server", "http1"] }
hyper-util = { version = "0.1", features = ["tokio"] }
http-body-util = "0.1"
reqwest = { version = "0.12", default-features = false, features = ["json", "rustls-tls"] }
vercel_runtime = "*"
leptos = { version = "*", features = ["csr"] }
gloo-net = { version = "*", features = ["http"] }
wasm-bindgen = "*"
web-sys = { version = "*", features = ["Window", "Storage", "Element", "PointerEvent"] }
js-sys = "*"
console_error_panic_hook = "*"
