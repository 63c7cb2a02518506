pub mod agents;
pub mod app;
pub mod config;
pub mod gemini;
pub mod layout;
pub mod ollama;
pub mod screen;
pub mod text;
