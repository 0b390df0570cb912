[package]
name = "itehax-website"
version = "0.1.0"
edition = "2021"
publish = false

[dependencies]
chrono = "0.4"
gray_matter = "0.2"
pulldown-cmark = "0.9"
serde = { version = "1", features = ["derive"] }
serde_json = "1"
rand = "0.8"
axum = "0.7"
leptos = "0.6"
leptos_meta = "0.6"
leptos_router = "0.6"
