[package]
name = "chat_loop"
version = "0.1.0"
edition = "2021"
publish = false

[dependencies]
llm = "0.1.1"
rand = "0.8"
rustyline = "11.0.0"
tokio = { version = "1", features = ["macros", "rt-multi-thread"] }
