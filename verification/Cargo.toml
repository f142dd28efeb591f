[package]
name = "brush_wasm"
version = "0.1.0"
edition = "2021"
publish = false

[dependencies]
normalize-path = "*"
serde_json = "1"
serde = { version = "1", features = ["derive"] }
serde-wasm-bindgen = "*"
wasm-bindgen = "0.2"
wasm-bindgen-futures = "*"
js-sys = "*"
web-sys = { version = "*", features = ["console"] }
console_error_panic_hook = "*"
tokio = { version = "1", features = ["io-util", "rt"] }
findutils = "*"
uu_cat = "*"
uu_echo = "*"
uu_sort = "*"
uu_uniq = "*"
uu_wc = "*"
uu_head = "*"
uu_tail = "*"
uu_cut = "*"
uu_tr = "*"
uu_seq = "*"
uu_printf = "*"
