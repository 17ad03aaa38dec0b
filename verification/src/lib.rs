//! Decision and text logic of a Telegram notification gateway.
pub mod text;
pub mod numbers;
pub mod tts;
pub mod telegram;
pub mod config;
pub mod state;
pub mod clock;
pub mod bot;
pub mod http;
